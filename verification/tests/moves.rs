//! Legal actions, combinations and what is left of a hand.

use clawguandan::beat_comparator::BeatComparator;
use clawguandan::cards::{
    card_symbol, parse_card_symbol, parse_cards, read_symbols, HandLevel, RuleContext,
};
use clawguandan::combination_parser::{
    BombKind, Combination, CombinationKind, CombinationParser, OrdinaryKind,
};
use clawguandan::domain::Seat;
use clawguandan::game_types::{
    GamePhase, HandState, PlayState, PlayerAction, TableGameState, TributePair, TributeState,
};
use clawguandan::leftovers::{min_tricks_partition, take_away, TrickMemo};
use clawguandan::hand_combos::analyze_hand_combos;
use clawguandan::movegen::enumerate_legal_actions;
use clawguandan::suggest::suggest_next_action;

fn ctx() -> RuleContext {
    RuleContext { hand_level: HandLevel::Two }
}

fn texts(list: &[&str]) -> Vec<String> {
    list.iter().map(|s| s.to_string()).collect()
}

fn playing(hand_cards: &[&str], top: Option<(Seat, &[&str])>) -> TableGameState {
    let mut state = TableGameState::new("t_moves".into());
    state.phase = GamePhase::Playing;
    state.turn_seat = Seat::E;
    state.leader_seat = Seat::E;
    let mut hand = HandState::new(HandLevel::Two);
    hand.hands.insert(Seat::E, texts(hand_cards));
    for seat in [Seat::S, Seat::W, Seat::N] {
        hand.hands.insert(seat, texts(&["♠3", "♠4", "♠5", "♠6", "♠7", "♠8", "♠9", "♠10"]));
    }
    if let Some((seat, cards)) = top {
        let cards = texts(cards);
        let combination = CombinationParser::parse(&cards, None, ctx()).unwrap();
        hand.trick.top_play = Some(PlayState { seat, cards, wild_targets: None, combination });
        hand.trick.last_play_seat = Some(seat);
    }
    state.hand = Some(hand);
    state
}

fn plays_of(state: &TableGameState) -> Vec<Vec<String>> {
    let mut found = Vec::new();
    for action in enumerate_legal_actions(state, Seat::E).unwrap() {
        if let PlayerAction::Play { cards, .. } = action {
            found.push(cards);
        }
    }
    found
}

fn offers(state: &TableGameState, cards: &[&str]) -> bool {
    let mut wanted = texts(cards);
    wanted.sort();
    plays_of(state).into_iter().any(|mut play| {
        play.sort();
        play == wanted
    })
}

fn combo(cards: &[&str]) -> Option<Combination> {
    CombinationParser::parse(&texts(cards), None, ctx()).ok()
}

#[test]
fn every_play_is_legal_held_and_found_once() {
    let state = playing(&["♠3", "♥3", "♦3", "♣3", "♥2", "♠4", "♠5", "♠6", "♠7"], None);
    let hand = state.hand.as_ref().unwrap().hands.get(Seat::E).unwrap();
    let actions = enumerate_legal_actions(&state, Seat::E).unwrap();
    assert!(!actions.contains(&PlayerAction::Pass));
    for (i, action) in actions.iter().enumerate() {
        assert!(!actions[..i].contains(action));
        let PlayerAction::Play { cards, wild_targets } = action else {
            panic!("a leader plays");
        };
        assert!(CombinationParser::parse(cards, wild_targets.as_deref(), ctx()).is_ok());
        for card in cards {
            let played = cards.iter().filter(|c| *c == card).count();
            let held = hand.iter().filter(|c| *c == card).count();
            assert!(played <= held);
        }
    }
}

#[test]
fn plain_bombs_of_a_full_hand_are_offered() {
    let mut cards = vec!["♠K", "♥K", "♦K", "♣K", "♠K", "♥K", "♦K", "♣K"];
    cards.extend(["♠3", "♠4", "♥5", "♦6", "♣7", "♠8", "♥9", "♦10", "♣J", "♠Q"]);
    cards.extend(["♥A", "♦A", "♣4", "♠6", "♥7", "♦8", "♣9", "♥10", "♦J"]);
    let state = playing(&cards, None);
    for n in 4..=8 {
        assert!(offers(&state, &cards[..n]), "{n} kings");
    }
}

#[test]
fn four_jokers_are_offered_and_beat_a_long_bomb() {
    let top: &[&str] = &["♠9", "♥9", "♦9", "♣9", "♠9", "♥9", "♦9", "♣9"];
    let state = playing(&["🃏R", "♠3", "🃏b", "🃏R", "🃏b"], Some((Seat::S, top)));
    assert!(offers(&state, &["🃏R", "🃏R", "🃏b", "🃏b"]));
}

#[test]
fn straight_flush_below_the_two_is_offered() {
    let state = playing(&["♠A", "♠2", "♠3", "♠4", "♠5", "♥9"], None);
    assert!(offers(&state, &["♠A", "♠2", "♠3", "♠4", "♠5"]));
    let c = combo(&["♠A", "♠2", "♠3", "♠4", "♠5"]).unwrap();
    assert_eq!(c.kind, CombinationKind::Bomb(BombKind::StraightFlush));
    assert_eq!(c.primary, 5);
}

#[test]
fn tubes_and_plates_below_the_two_are_offered() {
    let tube = ["♠A", "♥A", "♠2", "♦2", "♠3", "♥3"];
    assert!(offers(&playing(&tube, None), &tube));
    assert_eq!(combo(&tube).unwrap().kind, CombinationKind::Ordinary(OrdinaryKind::Tube));
    let plate = ["♠A", "♥A", "♦A", "♠2", "♦2", "♣2"];
    assert!(offers(&playing(&plate, None), &plate));
    assert_eq!(combo(&plate).unwrap().kind, CombinationKind::Ordinary(OrdinaryKind::Plate));
}

#[test]
fn single_cards_and_pairs_follow_their_kind() {
    let state = playing(&["♠7", "♥7", "♣9"], Some((Seat::S, &["♠8"])));
    assert!(offers(&state, &["♣9"]));
    assert!(!offers(&state, &["♠7"]));
    let state = playing(&["♠7", "♥7", "♣9", "♦9"], Some((Seat::S, &["♠8", "♦8"])));
    assert!(offers(&state, &["♣9", "♦9"]));
    assert!(!offers(&state, &["♠7", "♥7"]));
}

#[test]
fn five_card_plays_at_the_end_of_a_full_hand_are_offered() {
    let mut cards = vec![
        "♠10", "♥10", "♠J", "♥J", "♠Q", "♥Q", "♠K", "♥K", "♠A", "♥A", "♦10", "♦J", "♦Q", "♦K",
        "♦A", "♣10", "♣J", "♣Q", "♣K",
    ];
    cards.extend(["♠9", "♥9", "♦9", "♣3", "♠4", "♥5", "♦6", "♣7"]);
    assert_eq!(cards.len(), 27);
    let state = playing(&cards, Some((Seat::N, &["♠2", "♠3", "♥4", "♦5", "♣6"])));
    assert!(offers(&state, &["♣3", "♠4", "♥5", "♦6", "♣7"]));
    assert!(!offers(&state, &["♠9", "♥9", "♦9"]));
}

#[test]
fn a_wild_card_fills_in_for_any_card() {
    let state = playing(&["♠9", "♥9", "♥2", "♣3", "♠4", "♥5", "♣7"], None);
    let found = enumerate_legal_actions(&state, Seat::E).unwrap();
    for target in ["♠6", "♥6", "♦6", "♣6"] {
        assert!(found.contains(&PlayerAction::Play {
            cards: texts(&["♥2", "♣3", "♠4", "♥5", "♣7"]),
            wild_targets: Some(texts(&[target])),
        }));
    }
    assert!(offers(&state, &["♠9", "♥9", "♥2"]));
}

#[test]
fn a_follower_may_pass_and_a_leader_may_not() {
    let follow = playing(&["♠3"], Some((Seat::S, &["♠A"])));
    assert_eq!(enumerate_legal_actions(&follow, Seat::E).unwrap(), vec![PlayerAction::Pass]);
    let lead = playing(&["♠3"], None);
    assert_eq!(
        enumerate_legal_actions(&lead, Seat::E).unwrap(),
        vec![PlayerAction::Play { cards: texts(&["♠3"]), wild_targets: None }]
    );
    let unreadable = playing(&["?"], None);
    assert_eq!(
        enumerate_legal_actions(&unreadable, Seat::E).unwrap(),
        vec![PlayerAction::Play { cards: texts(&["?"]), wild_targets: None }]
    );
}

#[test]
fn only_the_player_to_move_has_actions() {
    let state = playing(&["♠3"], None);
    assert_eq!(enumerate_legal_actions(&state, Seat::W), Err("not actor turn".to_string()));
    assert_eq!(suggest_next_action(&state, Seat::W), Err("not actor turn".to_string()));
}

fn exchanging(phase: GamePhase, paid: Option<&str>) -> TableGameState {
    let mut state = playing(&["♠3", "♥2", "♠K", "♦K", "♠2"], None);
    state.phase = phase;
    let hand = state.hand.as_mut().unwrap();
    let (payer, receiver) = if paid.is_some() { (Seat::S, Seat::E) } else { (Seat::E, Seat::S) };
    hand.tribute = Some(TributeState {
        canceled: false,
        pairs: vec![TributePair {
            payer,
            receiver,
            paid_card: paid.map(|c| c.to_string()),
            return_card: None,
        }],
        opening_lead_candidates: vec![],
    });
    state
}

#[test]
fn tribute_is_the_highest_card_that_is_not_wild() {
    let state = exchanging(GamePhase::Tribute, None);
    assert_eq!(
        enumerate_legal_actions(&state, Seat::E).unwrap(),
        vec![PlayerAction::Tribute { card: "♠2".into() }]
    );
    assert_eq!(
        suggest_next_action(&state, Seat::E).unwrap(),
        PlayerAction::Tribute { card: "♠2".into() }
    );
}

#[test]
fn return_is_neither_the_paid_rank_nor_the_level() {
    let state = exchanging(GamePhase::Exchange, Some("♥K"));
    assert_eq!(
        enumerate_legal_actions(&state, Seat::E).unwrap(),
        vec![PlayerAction::ReturnCard { card: "♠3".into() }]
    );
    assert_eq!(
        suggest_next_action(&state, Seat::E).unwrap(),
        PlayerAction::ReturnCard { card: "♠3".into() }
    );
}

#[test]
fn every_suggestion_is_among_the_legal_actions() {
    let hands: [&[&str]; 3] = [
        &["♠3", "♥3", "♠4", "♥5", "♦6", "♣7", "♥2"],
        &["♠K", "♥K", "♦K", "♣K", "♠9"],
        &["🃏R", "♠A", "♥A"],
    ];
    let tops: [Option<(Seat, &[&str])>; 3] =
        [None, Some((Seat::S, &["♠8"])), Some((Seat::W, &["♠4", "♦4"]))];
    for hand in hands {
        for top in tops {
            let state = playing(hand, top);
            let legal = enumerate_legal_actions(&state, Seat::E).unwrap();
            let action = suggest_next_action(&state, Seat::E).unwrap();
            assert!(legal.contains(&action), "{action:?}");
        }
    }
}

#[test]
fn cards_are_read_and_written_back() {
    for text in ["♠3", "♥10", "♦J", "♣A", "🃏R", "🃏b"] {
        assert_eq!(card_symbol(parse_card_symbol(text).unwrap()), text);
    }
    assert!(parse_card_symbol("♠1").is_err());
    assert!(parse_card_symbol("").is_err());
}

#[test]
fn combinations_are_told_apart() {
    let kind = |cards: &[&str]| combo(cards).map(|c| c.kind);
    let ordinary = |k| Some(CombinationKind::Ordinary(k));
    assert_eq!(kind(&["♠9"]), ordinary(OrdinaryKind::Single));
    assert_eq!(kind(&["♠9", "♥9"]), ordinary(OrdinaryKind::Pair));
    assert_eq!(kind(&["♠9", "♥9", "♦9"]), ordinary(OrdinaryKind::Triple));
    assert_eq!(kind(&["♠9", "♥9", "♦9", "♠4", "♥4"]), ordinary(OrdinaryKind::FullHouse));
    assert_eq!(kind(&["♠3", "♥4", "♦5", "♠6", "♥7"]), ordinary(OrdinaryKind::Straight));
    assert_eq!(
        kind(&["♠9", "♥9", "♦9", "♣9"]),
        Some(CombinationKind::Bomb(BombKind::SameRank { n: 4 }))
    );
    assert_eq!(kind(&["♠9", "♥8"]), None);
    assert_eq!(kind(&["🃏R", "🃏R", "🃏R"]), None);
}

#[test]
fn bombs_rise_from_four_to_the_jokers() {
    let ladder = [
        combo(&["♠A", "♥A"]).unwrap(),
        combo(&["♠3", "♥3", "♦3", "♣3"]).unwrap(),
        combo(&["♠3", "♥3", "♦3", "♣3", "♠3"]).unwrap(),
        combo(&["♠3", "♠4", "♠5", "♠6", "♠7"]).unwrap(),
        combo(&["♠3", "♥3", "♦3", "♣3", "♠3", "♥3"]).unwrap(),
        combo(&["🃏R", "🃏R", "🃏b", "🃏b"]).unwrap(),
    ];
    for i in 0..ladder.len() {
        for j in 0..ladder.len() {
            assert_eq!(BeatComparator::can_beat(&ladder[i], &ladder[j]), i < j, "{i} {j}");
        }
    }
}

#[test]
fn play_and_leftover_are_the_hand() {
    let hand = read_symbols(&texts(&["♠3", "♥3", "♠3", "♥2", "?"]));
    let play = parse_cards(&texts(&["♠3", "♥2"])).unwrap();
    let rest = take_away(&hand, &play);
    assert_eq!(rest, read_symbols(&texts(&["♥3", "♠3", "?"])));
}

#[test]
fn a_hand_goes_down_in_the_fewest_tricks() {
    let tricks = |cards: &[&str]| {
        let mut memo = TrickMemo::new(ctx());
        min_tricks_partition(&read_symbols(&texts(cards)), &mut memo)
    };
    assert_eq!(tricks(&[]), 0);
    assert_eq!(tricks(&["♠3", "♥3", "♠9"]), 2);
    assert_eq!(tricks(&["♠3", "♥4", "♦5", "♠6", "♥7"]), 1);
    assert_eq!(tricks(&["♠3", "♥5", "♦7", "♠9"]), 4);
    assert_eq!(tricks(&["♠3", "♥2"]), 1);
}

#[test]
fn two_equal_jokers_are_a_pair() {
    let state = playing(&["🃏R", "🃏R"], None);
    assert!(offers(&state, &["🃏R", "🃏R"]));
    assert!(offers(&state, &["🃏R"]));
    let state = playing(&["🃏b", "🃏R", "🃏b"], Some((Seat::N, &["♠A", "♥A"])));
    assert!(offers(&state, &["🃏b", "🃏b"]));
    assert!(!offers(&state, &["🃏b", "🃏R"]));
    assert!(!offers(&playing(&["🃏b", "🃏R"], None), &["🃏b", "🃏R"]));
}

#[test]
fn nothing_legal_is_left_out() {
    let hands: [&[&str]; 4] = [
        &["🃏R", "🃏R", "♥2", "♠9", "♥9", "♣9"],
        &["♠3", "♥2", "♠4", "♠5", "♠6", "♠6"],
        &["🃏b", "🃏R", "🃏b", "🃏R", "♥2", "♠2"],
        &["♥K", "♠K", "♥K", "♠Q", "♦Q", "♥2"],
    ];
    for hand in hands {
        for top in [None, Some((Seat::N, &["♠8"][..])), Some((Seat::N, &["♠8", "♥8"][..]))] {
            let state = playing(hand, top);
            for mask in 1..1 << hand.len() {
                let some: Vec<&str> =
                    (0..hand.len()).filter(|i| mask >> i & 1 == 1).map(|i| hand[i]).collect();
                if some == ["♥2"] {
                    assert!(!offers(&state, &some));
                    continue;
                }
                let found = combo(&some).filter(|c| match top {
                    Some((_, cards)) => BeatComparator::can_beat(&combo(cards).unwrap(), c),
                    None => true,
                });
                if found.is_some() {
                    assert!(offers(&state, &some), "{some:?} on {top:?}");
                }
            }
        }
    }
}

#[test]
fn a_wild_card_forms_no_group() {
    let groups = |cards: &[&str]| analyze_hand_combos(&read_symbols(&texts(cards)), ctx());
    let before = groups(&["♠3", "♥3", "♦3", "♣3", "♠4", "♠5", "♠6", "♠7", "♠8", "♥9"]);
    for place in [0, 4, 10] {
        let mut hand = vec!["♥9", "♠3", "♥3", "♦3", "♣3", "♠4", "♠5", "♠6", "♠7", "♠8"];
        hand.insert(place, "♥2");
        let after = groups(&hand);
        assert_eq!(after.counts, before.counts);
        assert_eq!(after.bomb_count, before.bomb_count);
        assert_eq!(after.straight_flush_count, before.straight_flush_count);
        assert_eq!(after.singles_count, before.singles_count);
        assert_eq!(after.wild_count, before.wild_count + 1);
    }
    assert_eq!((before.bomb_count, before.straight_flush_count), (2, 1));
}
