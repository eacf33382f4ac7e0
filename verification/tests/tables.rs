//! Tables: who sits where, whose turn it is, what a hand comes to.

use clawguandan::cards::HandLevel;
use clawguandan::domain::{Seat, TeamId};
use clawguandan::game_log::{log_entry_of, GameLogger, LogHeader};
use clawguandan::game_types::{
    GamePhase, HandHistoryEntry, HandState, HistoryActionKind, PlayerAction, TableGameState,
    TributePair, TributeState,
};
use clawguandan::narration::narration_display_en;
use clawguandan::scoring::{Level, WinType};
use clawguandan::table::{
    first_segment, fresh_player_id, fresh_table_id, join_table, normalize_player_model,
    uuid_short_fragment, verify_player_identity, AppError, NewPlayer, PlayerPresence, PlayerType,
    SeatOrAuto, TableRuntimeState, TableStatus,
};
use clawguandan::table_actions::{
    check_action, finish_action, inject_last_championship, map_engine_error,
    normalized_event_payload, parse_player_action, DeltaOp,
};
use clawguandan::table_flow::{
    act_when_overdue, begin_game, begin_hand, champ_pause_active, change_ready,
    complete_finishing_order, disband, end_champ_pause, expire_bot_turn, expire_inactive_players,
    finds_bot_stuck, finish_overdue_move, infer_win_type, leave_game, next_transition, plan_next_hand, ready_transition_type,
    settle_scoring_and_wait_ready, NextHand, Poll, ReadyStep,
};

fn player(id: &str, kind: PlayerType) -> NewPlayer {
    NewPlayer {
        player_id: id.into(),
        player_key: format!("key_{id}"),
        player_name: id.to_uppercase(),
        player_type: kind,
        player_model: None,
    }
}

fn full_table() -> TableRuntimeState {
    let mut state = TableRuntimeState::new_with_level("t_1".into(), Level::Two);
    for id in ["e", "s", "w", "n"] {
        join_table(&mut state, player(id, PlayerType::Human), SeatOrAuto::Auto, 0).unwrap();
    }
    state
}

fn running_table() -> TableRuntimeState {
    let mut state = full_table();
    for id in ["e", "s", "w", "n"] {
        change_ready(&mut state, id, true, 0).unwrap();
    }
    let mut game = TableGameState::new("t_1".into());
    game.phase = GamePhase::Playing;
    game.turn_seat = Seat::E;
    let mut hand = HandState::new(HandLevel::Two);
    for seat in Seat::all() {
        hand.hands.insert(seat, vec!["♠3".into(), "♠4".into()]);
    }
    game.hand = Some(hand);
    begin_game(&mut state, game, Level::Two);
    state
}

fn code_of(e: &AppError) -> &'static str {
    match e {
        AppError::Conflict { code, .. } => code,
        AppError::Unprocessable { code, .. } => code,
        _ => "",
    }
}

#[test]
fn seats_are_given_in_table_order() {
    let state = full_table();
    assert_eq!(state.seat_for_player("e"), Some(Seat::E));
    assert_eq!(state.seat_for_player("s"), Some(Seat::S));
    assert_eq!(state.seat_for_player("w"), Some(Seat::W));
    assert_eq!(state.seat_for_player("n"), Some(Seat::N));
    assert_eq!(state.seq, 4);
}

#[test]
fn a_full_table_and_a_taken_seat_are_refused() {
    let mut state = full_table();
    let full = join_table(&mut state, player("x", PlayerType::Bot), SeatOrAuto::Auto, 0);
    assert_eq!(code_of(&full.unwrap_err()), "TABLE_FULL");
    let taken =
        join_table(&mut state, player("x", PlayerType::Bot), SeatOrAuto::Fixed(Seat::W), 0);
    match taken.unwrap_err() {
        AppError::Conflict { message, code, current_seq } => {
            assert_eq!(message, "seat W is occupied");
            assert_eq!(code, "SEAT_TAKEN");
            assert_eq!(current_seq, Some(4));
        }
        other => panic!("{other:?}"),
    }
    let mut started = running_table();
    let late = join_table(&mut started, player("x", PlayerType::Bot), SeatOrAuto::Auto, 0);
    assert_eq!(code_of(&late.unwrap_err()), "INVALID_TABLE_STATUS");
}

#[test]
fn seat_letters_are_parsed() {
    assert_eq!(SeatOrAuto::parse("auto").unwrap(), SeatOrAuto::Auto);
    assert_eq!(SeatOrAuto::parse("N").unwrap(), SeatOrAuto::Fixed(Seat::N));
    match SeatOrAuto::parse("n\"").unwrap_err() {
        AppError::BadRequest(m) => assert_eq!(m, "invalid seat \"n\\\"\""),
        other => panic!("{other:?}"),
    }
}

#[test]
fn identity_needs_the_key() {
    let state = full_table();
    assert!(verify_player_identity(&state, "e", "key_e").is_ok());
    assert!(matches!(
        verify_player_identity(&state, "e", "key_s"),
        Err(AppError::Forbidden(m)) if m == "invalid playerKey for playerId"
    ));
    assert!(matches!(
        verify_player_identity(&state, "x", "key_x"),
        Err(AppError::Forbidden(m)) if m == "playerId is not seated at this table"
    ));
}

#[test]
fn only_bots_keep_a_model() {
    let named = |t| normalize_player_model(t, Some("  m1 ".into()));
    assert_eq!(named(PlayerType::Bot), Some("m1".to_string()));
    assert_eq!(named(PlayerType::Human), None);
    assert_eq!(normalize_player_model(PlayerType::Bot, Some("  ".into())), None);
}

#[test]
fn identifiers_are_short_and_new() {
    let part = uuid_short_fragment();
    assert_eq!(part.len(), 8);
    assert_ne!(part, uuid_short_fragment());
    assert_eq!(first_segment("ab-cd-ef"), "ab");
    assert!(fresh_table_id().starts_with("t_"));
    assert_eq!(fresh_player_id().len(), 10);
}

#[test]
fn the_fourth_ready_starts_the_game() {
    let mut state = full_table();
    for id in ["e", "s", "w"] {
        let step = change_ready(&mut state, id, true, 0).unwrap();
        assert_eq!(ready_transition_type(step), "PLAYER_READY_CHANGED");
    }
    assert_eq!(change_ready(&mut state, "w", true, 0).unwrap(), ReadyStep::Unchanged);
    let step = change_ready(&mut state, "n", true, 0).unwrap();
    assert_eq!(ready_transition_type(step), "GAME_STARTED");
    assert!(matches!(change_ready(&mut state, "x", true, 0), Err(AppError::Forbidden(_))));
}

#[test]
fn a_started_game_announces_declarer_and_level() {
    let state = running_table();
    assert_eq!(state.status, TableStatus::InGame);
    assert!(!state.waiting_next_hand_ready);
    assert!(narration_display_en(&state.narration).contains("2"));
    assert_eq!(state.game.as_ref().unwrap().dealer_seat, Seat::E);
}

#[test]
fn actions_are_checked_before_they_are_tried() {
    let mut state = running_table();
    let seq = state.seq;
    assert_eq!(check_action(&state, "w", seq).unwrap(), Seat::W);
    match check_action(&state, "w", seq + 3).unwrap_err() {
        AppError::Conflict { message, code, current_seq } => {
            assert_eq!(message, format!("stale seq: expected {}, got {}", seq, seq + 3));
            assert_eq!(code, "STALE_SEQ");
            assert_eq!(current_seq, Some(seq));
        }
        other => panic!("{other:?}"),
    }
    assert!(matches!(check_action(&state, "x", seq), Err(AppError::Forbidden(_))));
    state.status = TableStatus::Waiting;
    assert_eq!(code_of(&check_action(&state, "w", seq).unwrap_err()), "INVALID_TABLE_STATUS");
}

#[test]
fn actions_are_read_from_their_payload() {
    let play = parse_player_action(
        "play",
        r#"{"cards":["♥2","♠9"],"declaredWildMapping":{"wildTargets":["♦9"]}}"#,
    );
    assert_eq!(
        play.unwrap(),
        PlayerAction::Play {
            cards: vec!["♥2".into(), "♠9".into()],
            wild_targets: Some(vec!["♦9".into()]),
        }
    );
    assert_eq!(parse_player_action("pass", "{}").unwrap(), PlayerAction::Pass);
    assert_eq!(
        parse_player_action("tribute", r#"{"card":"♠A"}"#).unwrap(),
        PlayerAction::Tribute { card: "♠A".into() }
    );
    assert_eq!(
        parse_player_action("return_card", r#"{"card":"♠3"}"#).unwrap(),
        PlayerAction::ReturnCard { card: "♠3".into() }
    );
    let message = |kind, payload| match parse_player_action(kind, payload) {
        Err(AppError::BadRequest(m)) => m,
        other => panic!("{other:?}"),
    };
    assert_eq!(message("tribute", "{}"), "missing card");
    assert_eq!(message("play", "{}"), "missing cards");
    assert_eq!(
        message("play", r#"{"cards":[1]}"#),
        "cards: invalid type: integer `1`, expected a string"
    );
    assert_eq!(
        message("play", r#"{"cards":"♠3"}"#),
        "cards: invalid type: string \"♠3\", expected a sequence"
    );
    assert_eq!(message("dance", "{}"), "unknown action_type");
}

#[test]
fn engine_messages_are_sorted_by_what_they_say() {
    let code = |m: &str| code_of(&map_engine_error(m.into(), 3));
    assert_eq!(code("wrong turn: E"), "WRONG_TURN");
    assert_eq!(code("play not allowed in current phase"), "INVALID_PHASE_ACTION");
    assert_eq!(code("seat is not expected to tribute"), "INVALID_PHASE_ACTION");
    assert_eq!(code("seat is not expected to return card"), "INVALID_PHASE_ACTION");
    assert_eq!(code("cannot beat"), "ILLEGAL_ACTION");
}

fn played(seq: u64, cards: &[&str]) -> HandHistoryEntry {
    HandHistoryEntry {
        seq,
        action_id: "a".into(),
        seat: Seat::E,
        timestamp: String::new(),
        action_type: HistoryActionKind::Play,
        cards: cards.iter().map(|c| c.to_string()).collect(),
        combination_type: Some("single".into()),
        wild_targets: None,
    }
}

fn copy_of(game: &TableGameState) -> TableGameState {
    let mut copy = TableGameState::new(game.table_id.clone());
    copy.phase = game.phase;
    copy.turn_seat = game.turn_seat;
    let mut hand = HandState::new(HandLevel::Two);
    for seat in Seat::all() {
        let cards = game.hand.as_ref().unwrap().hands.get(seat).unwrap().clone();
        hand.hands.insert(seat, cards);
    }
    copy.hand = Some(hand);
    copy
}

#[test]
fn an_applied_action_is_counted_and_reported() {
    let mut state = running_table();
    let seq = state.seq;
    let mut game = copy_of(state.game.as_ref().unwrap());
    game.turn_seat = Seat::S;
    game.hand.as_mut().unwrap().history.push(played(seq + 1, &["♠4"]));
    state.bot_turn_started_at = Some(5);
    finish_action(&mut state, game, "play");
    assert_eq!(state.seq, seq + 1);
    assert_eq!(state.bot_turn_started_at, None);
    let report = normalized_event_payload("play", state.game.as_ref(), state.seq).unwrap();
    assert_eq!(report.cards, vec!["♠4".to_string()]);
    assert!(normalized_event_payload("play", state.game.as_ref(), seq).is_none());
    assert!(normalized_event_payload("pass", state.game.as_ref(), seq + 1).is_none());
}

#[test]
fn a_missing_finisher_is_put_last() {
    let order = complete_finishing_order(&vec![Seat::N, Seat::E]);
    assert_eq!(order, vec![Seat::N, Seat::E, Seat::S, Seat::W]);
    assert_eq!(infer_win_type(&order, TeamId::Sn), WinType::OneThree);
    let double = vec![Seat::N, Seat::S, Seat::E, Seat::W];
    assert_eq!(infer_win_type(&double, TeamId::Sn), WinType::OneTwo);
    let last = vec![Seat::N, Seat::E, Seat::W, Seat::S];
    assert_eq!(infer_win_type(&last, TeamId::Sn), WinType::OneFour);
}

fn scored(mut state: TableRuntimeState, level: Level) -> TableRuntimeState {
    state.team_progress_ew.level = level;
    let game = state.game.as_mut().unwrap();
    game.phase = GamePhase::Scoring;
    game.winner_team = Some(TeamId::Ew);
    game.hand.as_mut().unwrap().finishing_order = vec![Seat::E, Seat::W];
    state
}

#[test]
fn a_settled_hand_waits_for_the_players() {
    let mut state = scored(running_table(), Level::Two);
    let seq = state.seq;
    let done = settle_scoring_and_wait_ready(&mut state, 1000).unwrap().unwrap();
    assert_eq!(done.winner, TeamId::Ew);
    assert_eq!(done.championship, None);
    assert_eq!(state.team_progress_ew.level, Level::Five);
    assert!(state.waiting_next_hand_ready);
    assert!(!state.all_ready());
    assert_eq!(state.seq, seq + 1);
    assert!(settle_scoring_and_wait_ready(&mut state, 1000).unwrap().is_none());
}

#[test]
fn a_champion_is_shown_before_the_next_game() {
    let mut state = scored(running_table(), Level::A);
    let done = settle_scoring_and_wait_ready(&mut state, 1000).unwrap().unwrap();
    assert_eq!(done.championship, Some(TeamId::Ew));
    assert!(champ_pause_active(&state, 12_999));
    assert!(!champ_pause_active(&state, 13_000));
    for id in ["e", "s", "w", "n"] {
        let step = change_ready(&mut state, id, true, 2000).unwrap();
        assert_eq!(ready_transition_type(step), "PLAYER_READY_CHANGED");
    }
    assert!(!end_champ_pause(&mut state, 5000));
    assert!(end_champ_pause(&mut state, 13_500));
    let plan = plan_next_hand(&mut state);
    assert!(matches!(plan, NextHand::Rematch { champion: TeamId::Ew }));
    assert_eq!(state.team_progress_ew.level, Level::Two);
    let game = copy_of(state.game.as_ref().unwrap());
    assert_eq!(begin_hand(&mut state, game, &plan), None);
    assert!(!state.waiting_next_hand_ready);
    assert_eq!(state.rematch_from_level2, None);
}

#[test]
fn a_winner_without_a_name_cannot_be_settled() {
    let mut state = scored(running_table(), Level::Two);
    state.game.as_mut().unwrap().winner_team = None;
    match settle_scoring_and_wait_ready(&mut state, 0).unwrap_err() {
        AppError::Conflict { message, .. } => {
            assert_eq!(message, "winner team missing when entering scoring")
        }
        other => panic!("{other:?}"),
    }
}

#[test]
fn a_slow_bot_passes() {
    let mut state = running_table();
    state.seats.e.as_mut().unwrap().player_type = PlayerType::Bot;
    assert!(expire_bot_turn(&mut state, 1000).unwrap().is_none());
    assert_eq!(state.bot_turn_started_at, Some(1000));
    assert!(expire_bot_turn(&mut state, 31_000).unwrap().is_none());
    let due = expire_bot_turn(&mut state, 31_001).unwrap().unwrap();
    assert_eq!(due.seat, Seat::E);
    assert_eq!(due.action, PlayerAction::Pass);
    let seq = state.seq;
    let game = copy_of(state.game.as_ref().unwrap());
    finish_overdue_move(&mut state, &due, game);
    assert_eq!(state.seq, seq + 1);
    assert_eq!(state.narration, "E (bot) auto-passed (timed out after 30s)");
}

#[test]
fn a_slow_bot_returns_a_card_whatever_the_others_hold() {
    let mut state = running_table();
    state.seats.s.as_mut().unwrap().player_type = PlayerType::Bot;
    let game = state.game.as_mut().unwrap();
    game.phase = GamePhase::Exchange;
    let hand = game.hand.as_mut().unwrap();
    hand.hands.insert(Seat::S, vec!["♥2".into(), "♠A".into(), "♠5".into()]);
    hand.hands.insert(Seat::W, vec![]);
    hand.tribute = Some(TributeState {
        canceled: false,
        pairs: vec![TributePair {
            payer: Seat::E,
            receiver: Seat::S,
            paid_card: Some("♥A".into()),
            return_card: None,
        }],
        opening_lead_candidates: vec![],
    });
    state.bot_turn_started_at = Some(0);
    assert!(!finds_bot_stuck(&state, 30_001));
    let due = expire_bot_turn(&mut state, 30_001).unwrap().unwrap();
    assert_eq!(due.seat, Seat::S);
    assert_eq!(due.action, PlayerAction::ReturnCard { card: "♠5".into() });
    // With nothing in its own hand the bot is stuck once its time is up, unless nothing is owed.
    state.bot_turn_started_at = Some(0);
    let hand = state.game.as_mut().unwrap().hand.as_mut().unwrap();
    hand.hands.insert(Seat::S, vec![]);
    assert!(finds_bot_stuck(&state, 30_001));
    assert!(!finds_bot_stuck(&state, 30_000));
    let game = state.game.as_ref().unwrap();
    match act_when_overdue(game, Seat::W, 4).unwrap_err() {
        AppError::Conflict { message, .. } => {
            assert_eq!(message, "player is not expected to return card")
        }
        other => panic!("{other:?}"),
    }
}

#[test]
fn a_person_is_never_hurried() {
    let mut state = running_table();
    state.bot_turn_started_at = Some(1);
    assert!(expire_bot_turn(&mut state, 900_000).unwrap().is_none());
    assert_eq!(state.bot_turn_started_at, None);
}

#[test]
fn silent_players_end_a_running_game() {
    let mut state = running_table();
    state.touch_player_activity("e", 1_000_000);
    assert!(expire_inactive_players(&mut state, 1_800_000).is_none());
    let gone = expire_inactive_players(&mut state, 1_800_001).unwrap();
    assert_eq!(gone.player_ids, vec!["s".to_string(), "w".to_string(), "n".to_string()]);
    assert!(gone.game_ended);
    assert_eq!(state.status, TableStatus::Finished);
    assert_eq!(state.seats.e.as_ref().unwrap().presence, PlayerPresence::Active);
    assert_eq!(state.seats.s.as_ref().unwrap().presence, PlayerPresence::Away);
    assert!(expire_inactive_players(&mut state, 9_000_000).is_none());
}

#[test]
fn disbanding_and_leaving_end_the_game() {
    let mut state = running_table();
    assert!(disband(&mut state, "table disbanded".into()));
    assert_eq!(state.status, TableStatus::Finished);
    assert_eq!(state.narration, "table disbanded");
    assert_eq!(state.game.as_ref().unwrap().phase, GamePhase::Completed);
    assert!(!disband(&mut state, "again".into()));
    let mut other = running_table();
    assert!(leave_game(&mut other, "s"));
    assert_eq!(other.narration, "S left the game");
}

#[test]
fn polling_follows_the_log() {
    let mut state = running_table();
    state.seq = 5;
    assert_eq!(next_transition(2, &state, 5), Poll::Ready { index: 2, lag: 2 });
    assert_eq!(next_transition(5, &state, 5), Poll::Wait);
    assert!(matches!(next_transition(6, &state, 5), Poll::Ahead));
    state.status = TableStatus::Finished;
    assert_eq!(next_transition(5, &state, 5), Poll::Ended);
}

#[test]
fn the_scoreboard_shows_the_last_championship() {
    let mut ops = vec![
        DeltaOp { path: Some("/scoreboard".into()), value: Some(r#"{"a":1}"#.into()) },
        DeltaOp { path: Some("/phase".into()), value: Some(r#"{"a":1}"#.into()) },
        DeltaOp { path: Some("/scoreboard".into()), value: Some("7".into()) },
    ];
    inject_last_championship(&mut ops, None);
    assert_eq!(ops[0].value.as_deref(), Some(r#"{"a":1}"#));
    inject_last_championship(&mut ops, Some(r#"{"winnerTeamId":"EW"}"#));
    assert_eq!(
        ops[0].value.as_deref(),
        Some(r#"{"a":1,"lastChampionship":{"winnerTeamId":"EW"}}"#)
    );
    assert_eq!(ops[1].value.as_deref(), Some(r#"{"a":1}"#));
    assert_eq!(ops[2].value.as_deref(), Some("7"));
}

#[test]
fn a_finished_hand_is_logged() {
    let mut state = scored(running_table(), Level::Two);
    state.seats.n.as_mut().unwrap().player_type = PlayerType::Bot;
    state.game.as_mut().unwrap().hand.as_mut().unwrap().history.push(played(9, &["♠4"]));
    let header = LogHeader {
        game_id: "g".into(),
        start_time: "a".into(),
        end_time: "b".into(),
        bot_params: None,
    };
    let order = vec![Seat::E, Seat::W, Seat::S, Seat::N];
    let entry = log_entry_of(&state, &order, TeamId::Ew, header).unwrap();
    assert_eq!(entry.finishing_order, vec!["E", "W", "S", "N"]);
    assert_eq!(entry.winner_team, "EW");
    assert_eq!(entry.bot_seats, vec!["N"]);
    assert_eq!(entry.human_seats, vec!["E", "S", "W"]);
    assert_eq!(entry.actions.len(), 1);
    assert_eq!(entry.actions[0].action_type, "play");
    assert_eq!(entry.actions[0].seat_team, "EW");
    let mut logger = GameLogger::new(1);
    assert!(logger.log_game(entry));
    assert_eq!(logger.entries().len(), 1);
    logger.written();
    assert_eq!(logger.entries().len(), 0);
}
