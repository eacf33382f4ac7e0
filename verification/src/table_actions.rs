//! What players ask to do at a table, and what is announced of it.

use vstd::prelude::*;
use vstd::string::*;
use crate::domain::Seat;
use crate::game_types::{
    Action, HandHistoryEntry, HandState, HistoryActionKind, PlayerAction, TableGameState,
    TributePair,
};
use crate::json::{
    insert_field, json_field_text, json_string_list, json_with_field, nested_text, read_field,
    read_nested, read_string_field, read_string_list, string_field, text_of,
};
use crate::narration::{
    Bilingual, big_play, format_big_play, format_rank_announce, format_tribute_action, is_big,
    is_big_play_combination, rank_announce, speaks, tribute_action,
};
use crate::rule_scoring::{contains_text, holds_text};
use crate::table::{
    AppError, Refusal, TableRuntimeState, TableStatus, bad_status, name_at,
    players_are_found_where_they_sit, same_game, seat_held, status_conflict,
};
use crate::text::{copy_texts, decimal, push_decimal, same_text, texts};

verus! {

/// The kind of error that a message of the game stands for.
pub open spec fn engine_code(message: Seq<char>) -> Seq<char> {
    if holds_text(message, "wrong turn"@) {
        "WRONG_TURN"@
    } else if holds_text(message, "not allowed in current phase"@) || holds_text(
        message,
        "not expected to tribute"@,
    ) || holds_text(message, "not expected to return"@) {
        "INVALID_PHASE_ACTION"@
    } else {
        "ILLEGAL_ACTION"@
    }
}

/// The error that a message of the game stands for.
pub fn map_engine_error(message: String, current_seq: u64) -> (e: AppError)
    ensures
        e@ == (Refusal::Unprocessable {
            message: message@,
            code: engine_code(message@),
            seq: Some(current_seq),
        }),
{
    let text = message.as_str();
    let code: &'static str = if contains_text(text, "wrong turn") {
        "WRONG_TURN"
    } else if contains_text(text, "not allowed in current phase") || contains_text(
        text,
        "not expected to tribute",
    ) || contains_text(text, "not expected to return") {
        "INVALID_PHASE_ACTION"
    } else {
        "ILLEGAL_ACTION"
    };
    AppError::Unprocessable { message, code, current_seq: Some(current_seq) }
}

/// What a request says, as far as it is read.
#[derive(Debug)]
pub struct Payload {
    /// The card of a tribute or a return.
    pub card: Option<String>,
    /// The cards of a play, or what is wrong with them.
    pub cards: Option<Result<Vec<String>, String>>,
    /// What the wild cards of a play stand for.
    pub wild_targets: Option<Vec<String>>,
}

pub open spec fn list_of(list: Option<Vec<String>>) -> Option<Seq<Seq<char>>> {
    match list {
        Some(l) => Some(texts(l@)),
        None => None,
    }
}

/// The action that a request asks for, or why it asks for none.
pub open spec fn action_asked(action_type: Seq<char>, p: Payload) -> Result<Action, Refusal> {
    if action_type == "tribute"@ {
        match p.card {
            Some(card) => Ok(Action::Tribute { card: card@ }),
            None => Err(Refusal::BadRequest("missing card"@)),
        }
    } else if action_type == "return_card"@ {
        match p.card {
            Some(card) => Ok(Action::ReturnCard { card: card@ }),
            None => Err(Refusal::BadRequest("missing card"@)),
        }
    } else if action_type == "play"@ {
        match p.cards {
            None => Err(Refusal::BadRequest("missing cards"@)),
            Some(Err(e)) => Err(Refusal::BadRequest("cards: "@ + e@)),
            Some(Ok(cards)) => Ok(
                Action::Play { cards: texts(cards@), wild_targets: list_of(p.wild_targets) },
            ),
        }
    } else if action_type == "pass"@ {
        Ok(Action::Pass)
    } else {
        Err(Refusal::BadRequest("unknown action_type"@))
    }
}

/// An action or an error, as expected.
pub open spec fn allows(found: Result<PlayerAction, AppError>, expected: Result<Action, Refusal>) -> bool {
    match found {
        Ok(a) => expected == Ok::<Action, Refusal>(a@),
        Err(e) => expected == Err::<Action, Refusal>(e@),
    }
}

/// The action that a request asks for.
pub fn action_from_payload(action_type: &str, payload: Payload) -> (action: Result<
    PlayerAction,
    AppError,
>)
    ensures
        allows(action, action_asked(action_type@, payload)),
{
    if same_text(action_type, "tribute") {
        match payload.card {
            Some(card) => Ok(PlayerAction::Tribute { card }),
            None => Err(AppError::BadRequest("missing card".to_owned())),
        }
    } else if same_text(action_type, "return_card") {
        match payload.card {
            Some(card) => Ok(PlayerAction::ReturnCard { card }),
            None => Err(AppError::BadRequest("missing card".to_owned())),
        }
    } else if same_text(action_type, "play") {
        match payload.cards {
            None => Err(AppError::BadRequest("missing cards".to_owned())),
            Some(Err(e)) => Err(AppError::BadRequest("cards: ".to_owned().concat(e.as_str()))),
            Some(Ok(cards)) => Ok(PlayerAction::Play { cards, wild_targets: payload.wild_targets }),
        }
    } else if same_text(action_type, "pass") {
        Ok(PlayerAction::Pass)
    } else {
        Err(AppError::BadRequest("unknown action_type".to_owned()))
    }
}

/// A request as its JSON text says.
pub open spec fn payload_read(p: Payload, text: Seq<char>) -> bool {
    &&& text_of(p.card) == string_field(text, "card"@)
    &&& match json_field_text(text, "cards"@) {
        None => p.cards is None,
        Some(cards) => match json_string_list(cards) {
            Ok(list) => p.cards matches Some(Ok(l)) && texts(l@) == list,
            Err(e) => p.cards matches Some(Err(m)) && m@ == e,
        },
    }
    &&& list_of(p.wild_targets) == match nested_text(text, "declaredWildMapping"@, "wildTargets"@) {
        Some(targets) => match json_string_list(targets) {
            Ok(list) => Some(list),
            Err(_) => None,
        },
        None => None,
    }
}

fn read_payload(text: &str) -> (p: Payload)
    ensures
        payload_read(p, text@),
{
    let cards: Option<Result<Vec<String>, String>> = match read_field(text, "cards") {
        Some(field) => Some(read_string_list(field.as_str())),
        None => None,
    };
    let wild_targets: Option<Vec<String>> = match read_nested(
        text,
        "declaredWildMapping",
        "wildTargets",
    ) {
        Some(field) => match read_string_list(field.as_str()) {
            Ok(list) => Some(list),
            Err(_) => None,
        },
        None => None,
    };
    Payload { card: read_string_field(text, "card"), cards, wild_targets }
}

/// The action that a request, given as JSON text, asks for.
pub fn parse_player_action(action_type: &str, payload: &str) -> (action: Result<
    PlayerAction,
    AppError,
>)
    ensures
        exists|p: Payload| #[trigger] payload_read(p, payload@) && allows(
            action,
            action_asked(action_type@, p),
        ),
{
    let p = read_payload(payload);
    action_from_payload(action_type, p)
}

/// Why an action is not let through to the game, if so.
pub open spec fn action_refusal(state: TableRuntimeState, id: Seq<char>, client_seq: u64) -> Option<
    Refusal,
> {
    if client_seq != state.seq {
        Some(
            Refusal::Conflict {
                message: "stale seq: expected "@ + decimal(state.seq as nat) + ", got "@ + decimal(
                    client_seq as nat,
                ),
                code: "STALE_SEQ"@,
                seq: Some(state.seq),
            },
        )
    } else if state.status != TableStatus::InGame {
        Some(bad_status("action is only allowed when table is in_game"@, state.seq))
    } else if seat_held(state, id) is None {
        Some(Refusal::Forbidden("player is not seated at this table"@))
    } else {
        None
    }
}

/// Checks that a player may act now; says from which seat.
pub fn check_action(state: &TableRuntimeState, player_id: &str, client_seq: u64) -> (seat: Result<
    Seat,
    AppError,
>)
    ensures
        match seat {
            Ok(s) => action_refusal(*state, player_id@, client_seq) is None && seat_held(
                *state,
                player_id@,
            ) == Some(s),
            Err(e) => action_refusal(*state, player_id@, client_seq) == Some(e@),
        },
{
    if client_seq != state.seq {
        let mut message = "stale seq: expected ".to_owned();
        push_decimal(&mut message, state.seq);
        message.append(", got ");
        push_decimal(&mut message, client_seq);
        return Err(
            AppError::Conflict { message, code: "STALE_SEQ", current_seq: Some(state.seq) },
        );
    }
    if state.status != TableStatus::InGame {
        return Err(
            status_conflict("action is only allowed when table is in_game", state.seq),
        );
    }
    match state.seat_for_player(player_id) {
        Some(seat) => Ok(seat),
        None => Err(AppError::Forbidden("player is not seated at this table".to_owned())),
    }
}

/// The tribute between two seats, from place `i` on.
pub open spec fn pair_between(pairs: Seq<TributePair>, payer: Seat, receiver: Seat, i: int) -> Option<
    int,
>
    decreases pairs.len() - i,
{
    if i < 0 || i >= pairs.len() {
        None
    } else if pairs[i].payer == payer && pairs[i].receiver == receiver {
        Some(i)
    } else {
        pair_between(pairs, payer, receiver, i + 1)
    }
}

/// The tributes of a game.
pub open spec fn tributes_in(game: Option<TableGameState>) -> Option<Seq<TributePair>> {
    match game {
        Some(g) => match g.hand {
            Some(hand) => match hand.tribute {
                Some(t) => Some(t.pairs@),
                None => None,
            },
            None => None,
        },
        None => None,
    }
}

/// The card that a tribute was paid with, or returned by.
pub open spec fn pair_card(pair: TributePair, returned: bool) -> Option<Seq<char>> {
    if returned {
        text_of(pair.return_card)
    } else {
        text_of(pair.paid_card)
    }
}

/// The same card before the action.
pub open spec fn card_before(before: Option<Seq<TributePair>>, pair: TributePair, returned: bool) -> Option<
    Seq<char>,
> {
    match before {
        Some(pairs) => match pair_between(pairs, pair.payer, pair.receiver, 0) {
            Some(i) => pair_card(pairs[i], returned),
            None => None,
        },
        None => None,
    }
}

/// The first tribute from place `i` on that was just paid or returned.
pub open spec fn just_moved(
    pairs: Seq<TributePair>,
    before: Option<Seq<TributePair>>,
    returned: bool,
    i: int,
) -> Option<int>
    decreases pairs.len() - i,
{
    if i < 0 || i >= pairs.len() {
        None
    } else if pair_card(pairs[i], returned) is Some && card_before(before, pairs[i], returned)
        != pair_card(pairs[i], returned) {
        Some(i)
    } else {
        just_moved(pairs, before, returned, i + 1)
    }
}

/// What is announced of a tribute that was just paid or returned.
pub open spec fn tribute_news(
    state: TableRuntimeState,
    before: Option<TableGameState>,
    returned: bool,
) -> Option<Bilingual> {
    match tributes_in(state.game) {
        Some(pairs) => match just_moved(pairs, tributes_in(before), returned, 0) {
            Some(i) => {
                let payer = name_at(state.seats, pairs[i].payer);
                let receiver = name_at(state.seats, pairs[i].receiver);
                let card = pair_card(pairs[i], returned)->Some_0;
                Some(
                    if returned {
                        tribute_action(receiver, card, payer, true)
                    } else {
                        tribute_action(payer, card, receiver, false)
                    },
                )
            },
            None => None,
        },
        None => None,
    }
}

/// Number of players who are out.
pub open spec fn out_count(game: Option<TableGameState>) -> nat {
    match game {
        Some(g) => match g.hand {
            Some(hand) => hand.finishing_order@.len(),
            None => 0,
        },
        None => 0,
    }
}

/// What is announced of a play: a bomb, or the first and the second player who is out.
pub open spec fn play_news(state: TableRuntimeState, before: Option<TableGameState>) -> Option<
    Bilingual,
> {
    match state.game {
        None => None,
        Some(game) => match game.hand {
            None => None,
            Some(hand) => if hand.history@.len() == 0 || hand.history@.last().action_type
                != HistoryActionKind::Play {
                None
            } else {
                match hand.history@.last().combination_type {
                    None => None,
                    Some(kind) => if is_big(kind@) {
                        Some(big_play(name_at(state.seats, hand.history@.last().seat), kind@))
                    } else {
                        let n = hand.finishing_order@.len();
                        if out_count(before) < n <= 2 {
                            Some(
                                rank_announce(
                                    name_at(state.seats, hand.finishing_order@.last()),
                                    n as int,
                                ),
                            )
                        } else {
                            None
                        }
                    },
                }
            },
        },
    }
}

/// What is announced of an action.
pub open spec fn action_news(
    state: TableRuntimeState,
    before: Option<TableGameState>,
    action_type: Seq<char>,
) -> Option<Bilingual> {
    if action_type == "play"@ {
        play_news(state, before)
    } else if action_type == "tribute"@ {
        tribute_news(state, before, false)
    } else if action_type == "return_card"@ {
        tribute_news(state, before, true)
    } else {
        None
    }
}

/// An announcement, or nothing.
pub open spec fn tells(text: Seq<char>, news: Option<Bilingual>) -> bool {
    match news {
        Some(b) => speaks(text, b),
        None => text.len() == 0,
    }
}

fn same_card_text(a: &Option<String>, b: &Option<String>) -> (same: bool)
    ensures
        same == (text_of(*a) == text_of(*b)),
{
    match (a, b) {
        (Some(x), Some(y)) => same_text(x.as_str(), y.as_str()),
        (None, None) => true,
        _ => false,
    }
}

fn find_pair(pairs: &Vec<TributePair>, payer: Seat, receiver: Seat) -> (at: Option<usize>)
    ensures
        match at {
            Some(i) => pair_between(pairs@, payer, receiver, 0) == Some(i as int) && i
                < pairs@.len(),
            None => pair_between(pairs@, payer, receiver, 0) is None,
        },
{
    let mut i: usize = 0;
    while i < pairs.len()
        invariant
            i <= pairs@.len(),
            pair_between(pairs@, payer, receiver, 0) == pair_between(
                pairs@,
                payer,
                receiver,
                i as int,
            ),
        decreases pairs@.len() - i,
    {
        if pairs[i].payer == payer && pairs[i].receiver == receiver {
            return Some(i);
        }
        i = i + 1;
    }
    None
}

fn get_tributes(game: Option<&TableGameState>) -> (pairs: Option<&Vec<TributePair>>)
    ensures
        tributes_in(
            match game {
                Some(g) => Some(*g),
                None => None,
            },
        ) == match pairs {
            Some(p) => Some(p@),
            None => None,
        },
{
    match game {
        Some(g) => match &g.hand {
            Some(hand) => match &hand.tribute {
                Some(t) => Some(&t.pairs),
                None => None,
            },
            None => None,
        },
        None => None,
    }
}

fn card_of_pair(pair: &TributePair, returned: bool) -> (card: &Option<String>)
    ensures
        text_of(*card) == pair_card(*pair, returned),
{
    if returned {
        &pair.return_card
    } else {
        &pair.paid_card
    }
}

fn moved_just_now(pair: &TributePair, before: Option<&Vec<TributePair>>, returned: bool) -> (b: bool)
    ensures
        b == (pair_card(*pair, returned) is Some && card_before(
            match before {
                Some(p) => Some(p@),
                None => None,
            },
            *pair,
            returned,
        ) != pair_card(*pair, returned)),
{
    let now = card_of_pair(pair, returned);
    if now.is_none() {
        return false;
    }
    match before {
        Some(pairs) => match find_pair(pairs, pair.payer, pair.receiver) {
            Some(i) => !same_card_text(card_of_pair(&pairs[i], returned), now),
            None => true,
        },
        None => true,
    }
}

fn build_tribute_narration(
    state: &TableRuntimeState,
    prev_game: Option<&TableGameState>,
    returned: bool,
) -> (text: String)
    ensures
        tells(
            text@,
            tribute_news(
                *state,
                match prev_game {
                    Some(g) => Some(*g),
                    None => None,
                },
                returned,
            ),
        ),
{
    let current: Option<&TableGameState> = state.game.as_ref();
    let pairs = match get_tributes(current) {
        Some(p) => p,
        None => {
            return String::new();
        },
    };
    let before = get_tributes(prev_game);
    let ghost earlier = match before {
        Some(p) => Some(p@),
        None => None::<Seq<TributePair>>,
    };
    let mut i: usize = 0;
    while i < pairs.len()
        invariant
            i <= pairs@.len(),
            tributes_in(state.game) == Some(pairs@),
            earlier == match before {
                Some(p) => Some(p@),
                None => None::<Seq<TributePair>>,
            },
            tributes_in(
                match prev_game {
                    Some(g) => Some(*g),
                    None => None,
                },
            ) == earlier,
            just_moved(pairs@, earlier, returned, 0) == just_moved(
                pairs@,
                earlier,
                returned,
                i as int,
            ),
        decreases pairs@.len() - i,
    {
        let pair = &pairs[i];
        if moved_just_now(pair, before, returned) {
            let payer = state.player_name_for_seat(pair.payer);
            let receiver = state.player_name_for_seat(pair.receiver);
            if let Some(card) = card_of_pair(pair, returned) {
                return if returned {
                    format_tribute_action(receiver.as_str(), card.as_str(), payer.as_str(), true)
                } else {
                    format_tribute_action(payer.as_str(), card.as_str(), receiver.as_str(), false)
                };
            }
        }
        i = i + 1;
    }
    String::new()
}

fn count_out(game: Option<&TableGameState>) -> (n: usize)
    ensures
        n == out_count(
            match game {
                Some(g) => Some(*g),
                None => None,
            },
        ),
{
    match game {
        Some(g) => match &g.hand {
            Some(hand) => hand.finishing_order.len(),
            None => 0,
        },
        None => 0,
    }
}

/// Announces a play, if it is worth it.
pub fn build_play_narration(state: &TableRuntimeState, prev_game: Option<&TableGameState>) -> (text:
    String)
    ensures
        tells(
            text@,
            play_news(
                *state,
                match prev_game {
                    Some(g) => Some(*g),
                    None => None,
                },
            ),
        ),
{
    let game = match &state.game {
        Some(g) => g,
        None => {
            return String::new();
        },
    };
    let hand = match &game.hand {
        Some(h) => h,
        None => {
            return String::new();
        },
    };
    if hand.history.len() == 0 {
        return String::new();
    }
    let last = &hand.history[hand.history.len() - 1];
    if last.action_type != HistoryActionKind::Play {
        return String::new();
    }
    let kind = match &last.combination_type {
        Some(k) => k,
        None => {
            return String::new();
        },
    };
    if is_big_play_combination(kind.as_str()) {
        let name = state.player_name_for_seat(last.seat);
        return format_big_play(name.as_str(), kind.as_str());
    }
    let n: usize = hand.finishing_order.len();
    if n > count_out(prev_game) && n <= 2 {
        let name = state.player_name_for_seat(hand.finishing_order[n - 1]);
        return format_rank_announce(name.as_str(), n);
    }
    String::new()
}

/// Announces an action, if it is worth it.
pub fn build_action_narration(
    state: &TableRuntimeState,
    prev_game: Option<&TableGameState>,
    action_type: &str,
) -> (text: String)
    ensures
        tells(
            text@,
            action_news(
                *state,
                match prev_game {
                    Some(g) => Some(*g),
                    None => None,
                },
                action_type@,
            ),
        ),
{
    if same_text(action_type, "play") {
        build_play_narration(state, prev_game)
    } else if same_text(action_type, "tribute") {
        build_tribute_narration(state, prev_game, false)
    } else if same_text(action_type, "return_card") {
        build_tribute_narration(state, prev_game, true)
    } else {
        String::new()
    }
}

/// Takes in the game after an action; hands back the game before it.
pub fn finish_action(state: &mut TableRuntimeState, game: TableGameState, action_type: &str) -> (before:
    Option<TableGameState>)
    requires
        old(state).seq < u64::MAX,
    ensures
        before == old(state).game,
        final(state).game == Some(game),
        tells(
            final(state).narration@,
            action_news(
                (TableRuntimeState { game: Some(game), ..*old(state) }),
                old(state).game,
                action_type@,
            ),
        ),
        final(state).seq == old(state).seq + 1,
        final(state).bot_turn_started_at is None,
        final(state).seats == old(state).seats,
        same_game(*final(state), (TableRuntimeState { game: Some(game), ..*old(state) })),
{
    let before = state.game.take();
    state.game = Some(game);
    let news = build_action_narration(state, before.as_ref(), action_type);
    state.narration = news;
    state.seq = state.seq + 1;
    state.bot_turn_started_at = None;
    before
}

/// The play that a change of the table is reported with: that of the last entry of the
/// history, if the action was a play and that entry is the change.
pub open spec fn play_reported(
    action_type: Seq<char>,
    game: Option<TableGameState>,
    new_seq: u64,
) -> Option<HandHistoryEntry> {
    if action_type != "play"@ {
        None
    } else {
        match game {
            Some(g) => match g.hand {
                Some(hand) => if hand.history@.len() > 0 && hand.history@.last().seq == new_seq
                    && hand.history@.last().action_type == HistoryActionKind::Play {
                    Some(hand.history@.last())
                } else {
                    None
                },
                None => None,
            },
            None => None,
        }
    }
}

/// Cards that are reported, and what the wild ones stand for.
#[derive(Debug)]
pub struct ReportedPlay {
    pub cards: Vec<String>,
    pub wild_targets: Option<Vec<String>>,
}

/// The play that a change of the table is reported with, in place of what was asked for.
pub fn normalized_event_payload(action_type: &str, game: Option<&TableGameState>, new_seq: u64) -> (play:
    Option<ReportedPlay>)
    ensures
        ({
            let entry = play_reported(
                action_type@,
                match game {
                    Some(g) => Some(*g),
                    None => None,
                },
                new_seq,
            );
            match play {
                Some(p) => entry matches Some(e) && texts(p.cards@) == texts(e.cards@) && list_of(
                    p.wild_targets,
                ) == list_of(e.wild_targets),
                None => entry is None,
            }
        }),
{
    if !same_text(action_type, "play") {
        return None;
    }
    let hand = match game {
        Some(g) => match &g.hand {
            Some(h) => h,
            None => {
                return None;
            },
        },
        None => {
            return None;
        },
    };
    if hand.history.len() == 0 {
        return None;
    }
    let last = &hand.history[hand.history.len() - 1];
    if last.seq != new_seq || last.action_type != HistoryActionKind::Play {
        return None;
    }
    let wild_targets: Option<Vec<String>> = match &last.wild_targets {
        Some(list) => Some(copy_texts(list.as_slice())),
        None => None,
    };
    Some(ReportedPlay { cards: copy_texts(last.cards.as_slice()), wild_targets })
}

/// A change to one part of a table, with the new value as JSON text.
#[derive(Debug)]
pub struct DeltaOp {
    pub path: Option<String>,
    pub value: Option<String>,
}

/// A change to the scoreboard shows the last championship, if there was one; every other change,
/// and one whose value is no object, stays as it is.
pub open spec fn with_championship(before: DeltaOp, champion: Option<Seq<char>>) -> Option<Seq<char>> {
    match (champion, before.value) {
        (Some(c), Some(v)) => if text_of(before.path) == Some("/scoreboard"@) {
            match json_with_field(v@, "lastChampionship"@, c) {
                Some(t) => Some(t),
                None => Some(v@),
            }
        } else {
            Some(v@)
        },
        _ => text_of(before.value),
    }
}

/// Shows the last championship in every change to the scoreboard.
pub fn inject_last_championship(ops: &mut Vec<DeltaOp>, champion: Option<&str>)
    ensures
        final(ops)@.len() == old(ops)@.len(),
        forall|i: int|
            0 <= i < old(ops)@.len() ==> {
                &&& (#[trigger] final(ops)@[i]).path == old(ops)@[i].path
                &&& text_of(final(ops)@[i].value) == with_championship(
                    old(ops)@[i],
                    match champion {
                        Some(c) => Some(c@),
                        None => None,
                    },
                )
            },
{
    let champion = match champion {
        Some(c) => c,
        None => {
            return ;
        },
    };
    let ghost before = ops@;
    let total: usize = ops.len();
    for i in 0..total
        invariant
            total == before.len(),
            ops@.len() == before.len(),
            forall|j: int| i <= j < before.len() ==> #[trigger] ops@[j] == before[j],
            forall|j: int|
                0 <= j < i ==> {
                    &&& (#[trigger] ops@[j]).path == before[j].path
                    &&& text_of(ops@[j].value) == with_championship(before[j], Some(champion@))
                },
    {
        let on_board = match &ops[i].path {
            Some(p) => same_text(p.as_str(), "/scoreboard"),
            None => false,
        };
        if on_board {
            let shown: Option<String> = match &ops[i].value {
                Some(v) => insert_field(v.as_str(), "lastChampionship", champion),
                None => None,
            };
            if let Some(text) = shown {
                let mut op = DeltaOp { path: None, value: Some(text) };
                std::mem::swap(&mut op.path, &mut ops[i].path);
                ops[i] = op;
            }
        }
    }
}

/// An action gets through exactly where the player sits at a table whose game runs and has seen
/// its last change; one who has not is told the number of changes.
pub proof fn only_seated_players_act_in_time(state: TableRuntimeState, id: Seq<char>, seq: u64)
    ensures
        action_refusal(state, id, seq) is None <==> seq == state.seq && state.status
            == TableStatus::InGame && (exists|seat: Seat|
            (#[trigger] state.seats.at(seat) matches Some(p) && p.player_id@ == id)),
        seq != state.seq ==> (action_refusal(state, id, seq) matches Some(Refusal::Conflict {
            message: _,
            code,
            seq: current,
        }) && code == "STALE_SEQ"@ && current == Some(state.seq)),
        seq == state.seq && state.status != TableStatus::InGame ==> (action_refusal(
            state,
            id,
            seq,
        ) matches Some(Refusal::Conflict { message: _, code, seq: current }) && code
            == "INVALID_TABLE_STATUS"@ && current == Some(state.seq)),
        seq == state.seq && state.status == TableStatus::InGame ==> (action_refusal(state, id, seq)
            matches Some(r) ==> r is Forbidden),
{
    players_are_found_where_they_sit(state, id);
    if let Some(seat) = seat_held(state, id) {
        assert(state.seats.at(seat) is Some);
    }
}

proof fn lemma_just_moved(
    pairs: Seq<TributePair>,
    before: Option<Seq<TributePair>>,
    returned: bool,
    i: int,
)
    requires
        0 <= i <= pairs.len(),
    ensures
        match just_moved(pairs, before, returned, i) {
            Some(k) => i <= k < pairs.len() && pair_card(pairs[k], returned) is Some && card_before(
                before,
                pairs[k],
                returned,
            ) != pair_card(pairs[k], returned),
            None => forall|k: int|
                i <= k < pairs.len() ==> pair_card(#[trigger] pairs[k], returned) is None
                    || card_before(before, pairs[k], returned) == pair_card(pairs[k], returned),
        },
    decreases pairs.len() - i,
{
    if i < pairs.len() {
        lemma_just_moved(pairs, before, returned, i + 1);
    }
}

/// A tribute is announced as going from payer to receiver, and its return the other way; nothing is
/// announced where no card has moved.
pub proof fn tributes_are_announced_as_they_go(
    state: TableRuntimeState,
    before: Option<TableGameState>,
    returned: bool,
    pairs: Seq<TributePair>,
)
    requires
        tributes_in(state.game) == Some(pairs),
    ensures
        match tribute_news(state, before, returned) {
            Some(news) => exists|k: int|
                0 <= k < pairs.len() && (pair_card(#[trigger] pairs[k], returned) matches Some(card)
                    && card_before(tributes_in(before), pairs[k], returned) != Some(card) && news
                    == if returned {
                    tribute_action(
                        name_at(state.seats, pairs[k].receiver),
                        card,
                        name_at(state.seats, pairs[k].payer),
                        true,
                    )
                } else {
                    tribute_action(
                        name_at(state.seats, pairs[k].payer),
                        card,
                        name_at(state.seats, pairs[k].receiver),
                        false,
                    )
                }),
            None => forall|k: int|
                0 <= k < pairs.len() ==> pair_card(#[trigger] pairs[k], returned) is None
                    || card_before(tributes_in(before), pairs[k], returned) == pair_card(
                    pairs[k],
                    returned,
                ),
        },
{
    lemma_just_moved(pairs, tributes_in(before), returned, 0);
    if let Some(k) = just_moved(pairs, tributes_in(before), returned, 0) {
        assert(pair_card(pairs[k], returned) is Some);
    }
}

/// Of plays, bombs are announced, by the name of who has played them, and else only the first and
/// the second player who goes out, by name and place, once.
pub proof fn bombs_and_first_finishers_are_announced(
    state: TableRuntimeState,
    before: Option<TableGameState>,
    hand: HandState,
    kind: Seq<char>,
)
    requires
        state.game matches Some(game) && game.hand == Some(hand),
        hand.history@.len() > 0,
        hand.history@.last().action_type == HistoryActionKind::Play,
        text_of(hand.history@.last().combination_type) == Some(kind),
    ensures
        ({
            let out = hand.finishing_order@;
            let fresh = out.len() > out_count(before);
            let news = play_news(state, before);
            &&& is_big(kind) ==> news == Some(
                big_play(name_at(state.seats, hand.history@.last().seat), kind),
            )
            &&& !is_big(kind) && fresh && out.len() == 1 ==> news == Some(
                rank_announce(name_at(state.seats, out[0]), 1),
            )
            &&& !is_big(kind) && fresh && out.len() == 2 ==> news == Some(
                rank_announce(name_at(state.seats, out[1]), 2),
            )
            &&& !is_big(kind) && (!fresh || out.len() >= 3) ==> news is None
        }),
{
}

} // verus!
