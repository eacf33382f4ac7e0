//! The choice among legal actions, on tables that show one house rule each.

use clawguandan::cards::{
    parse_card_symbol, parse_cards, read_symbols, HandLevel, Rank, RuleContext, Symbol,
};
use clawguandan::combination_parser::{
    BombKind, Combination, CombinationClass, CombinationKind, CombinationParser, OrdinaryKind,
};
use clawguandan::domain::Seat;
use clawguandan::follow_decision::read_top;
use clawguandan::game_types::{
    GamePhase, HandHistoryEntry, HandState, HistoryActionKind, PlayState, PlayerAction,
    TableGameState,
};
use clawguandan::hand_combos::{HandCombos, SplitRules, BANNED};
use clawguandan::leftovers::{take_away, TrickMemo};
use clawguandan::params::AdvancedBotParams;
use clawguandan::play_context::{build_play_context, Chance, PlayContext};
use clawguandan::suggest::{score_lead, suggest_next_action};

const BANNED_SCORE_U32: u32 = BANNED;

fn ctx() -> RuleContext {
    RuleContext { hand_level: HandLevel::Two }
}

/// The combinations of a hand together with the hand.
struct Combos {
    hand: Vec<Symbol>,
    combos: HandCombos,
}

impl std::ops::Deref for Combos {
    type Target = HandCombos;

    fn deref(&self) -> &HandCombos {
        &self.combos
    }
}

fn analyze_hand_combos(hand: &[String], ctx: RuleContext) -> Combos {
    let hand = read_symbols(hand);
    let combos = clawguandan::hand_combos::analyze_hand_combos(&hand, ctx);
    Combos { hand, combos }
}

#[allow(clippy::too_many_arguments)]
fn split_penalty(
    play: &[String],
    combos: &Combos,
    level_nat: u8,
    has_level_card_or_joker: bool,
    kind: &CombinationKind,
    allow_endgame_split: bool,
    unlock_pair_for_single: bool,
    unlock_triple_for_pair: bool,
    feed_exempt: bool,
) -> u32 {
    assert_eq!(level_nat, 2);
    clawguandan::hand_combos::split_penalty(
        &parse_cards(play).unwrap(),
        &combos.hand,
        &combos.combos,
        ctx(),
        *kind,
        SplitRules {
            has_level_card_or_joker,
            allow_endgame_split,
            unlock_pair_for_single,
            unlock_triple_for_pair,
            feed_exempt,
        },
    )
}

fn score_follow(play: &[String], combo: &Combination, top: &PlayState, p: &PlayContext) -> f64 {
    let cards = parse_cards(play).unwrap();
    let score = clawguandan::suggest::score_follow(&cards, combo, &read_top(top), p);
    score as f64 / 100_000_000.0
}

fn wilds_could_form_bomb_or_sf(p: &PlayContext, play: &[String]) -> bool {
    let rest = take_away(&p.my_hand, &parse_cards(play).unwrap());
    clawguandan::leftovers::wilds_could_form_bomb_or_sf(&rest, p.ctx)
}

fn ratio(chance: Chance) -> f64 {
    chance.num as f64 / chance.den as f64
}

fn mk_playing_state(
    actor: Seat,
    actor_hand: Vec<&str>,
    top_cards: Option<(Seat, Vec<&str>)>,
) -> TableGameState {
    mk_playing_state_level(actor, actor_hand, top_cards, HandLevel::Two)
}

fn mk_playing_state_level(
    actor: Seat,
    actor_hand: Vec<&str>,
    top_cards: Option<(Seat, Vec<&str>)>,
    level: HandLevel,
) -> TableGameState {
    let mut s = TableGameState::new("t_suggest".into());
    s.phase = GamePhase::Playing;
    s.turn_seat = actor;
    s.leader_seat = actor;

    let mut hand = HandState::new(level);
    hand.hands.insert(actor, actor_hand.into_iter().map(ToString::to_string).collect());
    for seat in Seat::all() {
        if hand.hands.get(seat).is_none() {
            hand.hands.insert(seat, Vec::new());
        }
    }

    if let Some((seat, cards)) = top_cards {
        let cards: Vec<String> = cards.into_iter().map(ToString::to_string).collect();
        let combo =
            CombinationParser::parse(&cards, None, RuleContext { hand_level: level }).unwrap();
        hand.trick.top_play = Some(PlayState {
            seat,
            cards: cards.clone(),
            wild_targets: None,
            combination: combo,
        });
        hand.trick.last_play_seat = Some(seat);
    }

    s.hand = Some(hand);
    s
}

fn fill_seats(
    state: &mut TableGameState,
    n_cards: Vec<&str>,
    s_cards: Vec<&str>,
    w_cards: Vec<&str>,
) {
    if let Some(hand) = state.hand.as_mut() {
        hand.hands.insert(Seat::N, n_cards.into_iter().map(ToString::to_string).collect());
        hand.hands.insert(Seat::S, s_cards.into_iter().map(ToString::to_string).collect());
        hand.hands.insert(Seat::W, w_cards.into_iter().map(ToString::to_string).collect());
    }
}

fn mk_top(seat: Seat, cards: Vec<&str>) -> PlayState {
    let cards: Vec<String> = cards.into_iter().map(ToString::to_string).collect();
    let combo = CombinationParser::parse(&cards, None, ctx()).unwrap();
    PlayState { seat, cards, wild_targets: None, combination: combo }
}

fn pctx_of(state: &TableGameState, actor: Seat) -> PlayContext {
    let hand = state.hand.as_ref().unwrap();
    build_play_context(hand, actor, AdvancedBotParams::house_params())
}

fn combo_of(cards: Vec<&str>, targets: Vec<&str>) -> Combination {
    let cards: Vec<String> = cards.into_iter().map(ToString::to_string).collect();
    let targets: Vec<String> = targets.into_iter().map(ToString::to_string).collect();
    CombinationParser::parse(&cards, Some(&targets), ctx()).unwrap()
}

fn history_entry(seat: Seat, cards: Vec<&str>) -> HandHistoryEntry {
    HandHistoryEntry {
        seq: 0,
        action_id: "t".into(),
        seat,
        timestamp: String::new(),
        action_type: HistoryActionKind::Play,
        cards: cards.into_iter().map(ToString::to_string).collect(),
        combination_type: None,
        wild_targets: None,
    }
}

fn history_pass(seat: Seat) -> HandHistoryEntry {
    HandHistoryEntry {
        seq: 0,
        action_id: "t".into(),
        seat,
        timestamp: String::new(),
        action_type: HistoryActionKind::Pass,
        cards: vec![],
        combination_type: None,
        wild_targets: None,
    }
}


#[test]
fn endgame_split_pair_requires_allow_flag() {
    let hand: Vec<String> = vec!["♠5", "♥5", "♠8", "♥8"].into_iter().map(String::from).collect();
    let combos = analyze_hand_combos(&hand, ctx());
    assert_eq!(combos.singles_count, 0, "test hand must have no singles");
    let play = vec!["♠5".to_string()];
    let kind = CombinationKind::Ordinary(OrdinaryKind::Single);
    assert_eq!(
        split_penalty(&play, &combos, 2, false, &kind, true, false, false, false),
        0,
        "flag=true (残局+无单张+队友过牌) must allow pair split"
    );
    assert_eq!(
        split_penalty(&play, &combos, 2, false, &kind, false, false, false, false),
        BANNED_SCORE_U32,
        "flag=false must keep the absolute ban"
    );
    let hand3: Vec<String> = vec!["♠7", "♥7", "♦7", "♠8", "♥8", "♠9", "♥9"]
        .into_iter().map(String::from).collect();
    let combos3 = analyze_hand_combos(&hand3, ctx());
    let play3 = vec!["♠7".to_string()];
    assert_eq!(
        split_penalty(&play3, &combos3, 2, false, &kind, true, false, false, false),
        0,
        "flag=true must allow triple split"
    );
    assert_eq!(
        split_penalty(&play3, &combos3, 2, false, &kind, false, false, false, false),
        BANNED_SCORE_U32,
        "flag=false must keep the triple-split ban"
    );
}

#[test]
fn never_override_teammate_plate_and_tube() {
    let state = mk_playing_state(
        Seat::N,
        vec!["♠6", "♥6", "♠7", "♥7", "♠8", "♥8", "♠K", "♥K", "♦K", "♣K"],
        Some((Seat::S, vec!["♦3", "♣3", "♦4", "♣4", "♦5", "♣5"])),
    );
    let act = suggest_next_action(&state, Seat::N).unwrap();
    assert!(
        matches!(act, PlayerAction::Pass),
        "must pass teammate's tube, got {act:?}"
    );

    let state = mk_playing_state(
        Seat::N,
        vec!["♠5", "♥5", "♦5", "♠6", "♥6", "♦6", "♠K", "♥K", "♦K", "♣K"],
        Some((Seat::S, vec!["♦3", "♣3", "♥3", "♦4", "♣4", "♥4"])),
    );
    let act = suggest_next_action(&state, Seat::N).unwrap();
    assert!(
        matches!(act, PlayerAction::Pass),
        "must pass teammate's plate, got {act:?}"
    );
}

#[test]
fn counter_bomb_prefers_wildfree_even_endgame() {
    let state = mk_playing_state(
        Seat::N,
        vec!["♠7", "♥7", "♦7", "♣7", "♥2", "♠4"],
        Some((Seat::E, vec!["♠3", "♥3", "♦3", "♣3"])),
    );
    let act = suggest_next_action(&state, Seat::N).unwrap();
    match act {
        PlayerAction::Play { cards, .. } => {
            assert_eq!(cards.len(), 4, "must play wild-free 7777, got {cards:?}");
            assert!(!cards.contains(&"♥2".to_string()), "must not burn the wild, got {cards:?}");
        }
        other => panic!("expected play, got {other:?}"),
    }
    let state = mk_playing_state(
        Seat::N,
        vec!["♠7", "♥7", "♦7", "♣7", "♠8", "♥8", "♦8", "♣8", "♥2", "♠4"],
        Some((Seat::E, vec!["♠3", "♥3", "♦3", "♣3"])),
    );
    let act = suggest_next_action(&state, Seat::N).unwrap();
    match act {
        PlayerAction::Play { cards, .. } => {
            assert_eq!(cards.len(), 4, "must play wild-free bomb4, got {cards:?}");
            assert!(!cards.contains(&"♥2".to_string()), "must not burn the wild, got {cards:?}");
        }
        other => panic!("expected play, got {other:?}"),
    }
}

#[test]
fn bomb_count_counts_natural_bombs_only() {
    let ctx = ctx();
    let hand: Vec<String> = ["♠5", "♥5", "♦5", "♣5", "♥2", "♠9", "♥9", "♠4", "♥4"]
        .iter().map(|s| s.to_string()).collect();
    assert_eq!(analyze_hand_combos(&hand, ctx).bomb_count, 1);
    let hand: Vec<String> = ["♠5", "♥5", "♦5", "♣5", "♠9", "♥9", "♦9", "♥2", "♠K"]
        .iter().map(|s| s.to_string()).collect();
    assert_eq!(analyze_hand_combos(&hand, ctx).bomb_count, 1);
    let hand: Vec<String> = ["♠5", "♥5", "♦5", "♣5", "♠6", "♠7", "♠8", "♠9", "♥2"]
        .iter().map(|s| s.to_string()).collect();
    assert_eq!(analyze_hand_combos(&hand, ctx).bomb_count, 1);
    let hand: Vec<String> = ["♠5", "♥5", "♦5", "♣5", "♠9", "♠10", "♠J", "♥2"]
        .iter().map(|s| s.to_string()).collect();
    assert_eq!(analyze_hand_combos(&hand, ctx).bomb_count, 1);
    let hand: Vec<String> = ["♠5", "♥5", "♦5", "♣5", "♠6", "♠7", "♠8", "♠9", "♠10"]
        .iter().map(|s| s.to_string()).collect();
    assert_eq!(analyze_hand_combos(&hand, ctx).bomb_count, 2);
    let hand: Vec<String> = ["♠5", "♥5", "♦5", "♣5", "♠9", "♥9", "♦9", "♠K"]
        .iter().map(|s| s.to_string()).collect();
    assert_eq!(analyze_hand_combos(&hand, ctx).bomb_count, 1);
}

#[test]
fn sole_bomb_conserved_when_enemy_finished() {
    let mut state = mk_playing_state(
        Seat::N,
        vec!["♠5", "♥5", "♦5", "♣5", "♥2", "♠9", "♥9", "♠4", "♥4"],
        Some((Seat::E, vec!["♠Q", "♥Q", "♦Q", "♣J", "♥J"])),
    );
    fill_seats(
        &mut state,
        vec!["♠5", "♥5", "♦5", "♣5", "♥2", "♠9", "♥9", "♠4", "♥4"],
        vec!["♦3", "♣3", "♠7", "♥7", "♦9", "♣9", "♠6", "♥6", "♦6"],
        vec!["♣10", "♦10", "♠J", "♥J", "♦J", "♣J", "♠Q", "♥Q", "♦Q"],
    );
    let act = suggest_next_action(&state, Seat::N).unwrap();
    assert!(
        matches!(act, PlayerAction::Pass),
        "sole bomb must be conserved mid-game when no ACTIVE enemy sprints, got {act:?}"
    );
}

#[test]
fn split_unlock_on_repeated_enemy_leads() {
    let mut state = mk_playing_state(
        Seat::N,
        vec!["♠8", "♥8", "♠7", "♥7", "♠6", "♥6", "♠5", "♥5"],
        Some((Seat::E, vec!["♠3"])),
    );
    fill_seats(
        &mut state,
        vec!["♠8", "♥8", "♠7", "♥7", "♠6", "♥6", "♠5", "♥5"],
        vec!["♦4", "♣4", "♠10", "♥10", "♦10", "♣10", "♠J", "♥J", "♦J"],
        vec!["♣6", "♥6", "♦6", "♣7", "♥7", "♦7", "♣8", "♥8", "♦8"],
    );
    let act = suggest_next_action(&state, Seat::N).unwrap();
    match &act {
        PlayerAction::Play { cards, .. } => {
            assert_eq!(cards.len(), 1, "round 1 must unlock (≥1), got {act:?}");
            assert!(cards[0].ends_with('8'), "板内拆大 → 出8, got {cards:?}");
        }
        other => panic!("≥1 unlock must allow pair-split follow, got {other:?}"),
    }

    let mut state = mk_playing_state(
        Seat::N,
        vec!["♠9", "♥9", "♠5", "♥5", "♠6", "♥6", "♠7", "♥7"],
        Some((Seat::E, vec!["♠4"])),
    );
    fill_seats(
        &mut state,
        vec!["♠9", "♥9", "♠5", "♥5", "♠6", "♥6", "♠7", "♥7"],
        vec!["♦4", "♣4", "♠10", "♥10", "♦10", "♣10", "♠J", "♥J", "♦J"],
        vec!["♣6", "♥6", "♦6", "♣7", "♥7", "♦7", "♣8", "♥8", "♦8"],
    );
    state.hand.as_mut().unwrap().history = vec![
        history_entry(Seat::E, vec!["♠3"]),
        history_pass(Seat::S),
        history_pass(Seat::W),
        history_pass(Seat::N),
    ];
    let act = suggest_next_action(&state, Seat::N).unwrap();
    match act {
        PlayerAction::Play { cards, .. } => {
            assert_eq!(cards.len(), 1, "must split a pair for a single, got {cards:?}");
            let r = cards
                .first()
                .and_then(|c| parse_card_symbol(c).ok())
                .map(|c| c.rank);
            assert_eq!(r, Some(Rank::Nine), "孤对99优先拆大跟4, got {cards:?}");
        }
        other => panic!("unlock must allow pair-split follow, got {other:?}"),
    }

    let mut state = mk_playing_state(
        Seat::N,
        vec!["♠9", "♥9", "♦9", "♠5", "♥5", "♦5", "♠6", "♥6", "♦6", "♠K"],
        Some((Seat::E, vec!["♠4", "♥4"])),
    );
    fill_seats(
        &mut state,
        vec!["♠9", "♥9", "♦9", "♠5", "♥5", "♦5", "♠6", "♥6", "♦6", "♠K"],
        vec!["♦4", "♣4", "♠10", "♥10", "♦10", "♣10", "♠J", "♥J", "♦J", "♣J"],
        vec!["♣6", "♥6", "♦6", "♣7", "♥7", "♦7", "♣8", "♥8", "♦8", "♠A"],
    );
    state.hand.as_mut().unwrap().history = vec![
        history_entry(Seat::E, vec!["♠3", "♥3"]),
        history_pass(Seat::S),
        history_pass(Seat::W),
        history_pass(Seat::N),
    ];
    let act = suggest_next_action(&state, Seat::N).unwrap();
    match act {
        PlayerAction::Play { cards, .. } => {
            assert_eq!(cards.len(), 2, "must split a triple for a pair, got {cards:?}");
            let nines = cards.iter().filter(|c| c.ends_with('9')).count();
            assert_eq!(nines, 2, "孤三张999优先 → 拆99跟44, got {cards:?}");
        }
        other => panic!("unlock must allow triple-split follow, got {other:?}"),
    }
    let mut state = mk_playing_state(
        Seat::N,
        vec!["♠8", "♥8", "♠7", "♥7", "♠5", "♥5", "♠4"],
        Some((Seat::E, vec!["♠6"])),
    );
    fill_seats(
        &mut state,
        vec!["♠8", "♥8", "♠7", "♥7", "♠5", "♥5", "♠4"],
        vec!["♦4", "♣4", "♠10", "♥10", "♦10", "♣10", "♠J", "♥J", "♦J"],
        vec!["♣6", "♥6", "♦6", "♣7", "♥7", "♦7", "♣8", "♥8", "♦8"],
    );
    state.hand.as_mut().unwrap().history = vec![
        history_entry(Seat::E, vec!["♠5", "♥5", "♦5"]),
        history_pass(Seat::S),
        history_pass(Seat::W),
        history_pass(Seat::N),
    ];
    let act = suggest_next_action(&state, Seat::N).unwrap();
    match act {
        PlayerAction::Play { cards, .. } => {
            assert_eq!(cards.len(), 1, "K以下单张顶牌必须解锁, got {cards:?}");
            assert!(cards[0].ends_with('8'), "孤对88优先拆大跟6, got {cards:?}");
        }
        other => panic!("unlock must allow pair-split follow, got {other:?}"),
    }

    let base = |top: Vec<&str>| {
        let mut state = mk_playing_state(
            Seat::N,
            vec!["♠A", "♥A", "♦A", "♠8", "♥8", "♠7", "♦2"],
            Some((Seat::E, top)),
        );
        fill_seats(
            &mut state,
            vec!["♠A", "♥A", "♦A", "♠8", "♥8", "♠7", "♦2"],
            vec!["♦4", "♣4", "♠10", "♥10", "♦10", "♣10", "♠J", "♥J", "♦J"],
            vec!["♣6", "♥6", "♦6", "♣7", "♥7", "♦7", "♣8", "♥8", "♦8"],
        );
        state
    };
    let act = suggest_next_action(&base(vec!["♠K", "♥K"]), Seat::N).unwrap();
    assert!(
        matches!(act, PlayerAction::Pass),
        "对子KK（=K）不触发解锁 → 拆A被禁 → 过牌, got {act:?}"
    );
    let act = suggest_next_action(&base(vec!["♠Q", "♥Q"]), Seat::N).unwrap();
    match act {
        PlayerAction::Play { cards, .. } => {
            let aces = cards.iter().filter(|c| c.ends_with('A')).count();
            assert_eq!(aces, 2, "对子QQ（<K）解锁 → 拆AA跟牌, got {cards:?}");
        }
        other => panic!("对子QQ必须解锁拆A跟牌, got {other:?}"),
    }
}

#[test]
fn dual_wild_follow_candidates_only_in_endgame() {
    let fh_top = vec!["♠3", "♥3", "♦3", "♣5", "♥5"];
    let e9 = ["♠9", "♥9", "♦9", "♣9", "♠8", "♥8", "♦8", "♣8", "♠7"];

    let mut state = mk_playing_state(
        Seat::N,
        vec!["♠2", "♦2", "♥2", "♥2", "♠9", "♥9", "♦9", "♣9", "♠5"],
        Some((Seat::E, fh_top.clone())),
    );
    fill_seats(
        &mut state,
        vec!["♠2", "♦2", "♥2", "♥2", "♠9", "♥9", "♦9", "♣9", "♠5"],
        vec!["♦4", "♣4", "♠10", "♥10", "♦10", "♣10", "♠J", "♥J", "♦J"],
        vec!["♣6", "♥6", "♦6", "♣7", "♥7", "♦7", "♣8", "♥8", "♦8"],
    );
    if let Some(hand) = state.hand.as_mut() {
        hand.hands.insert(Seat::E, e9.iter().map(|s| s.to_string()).collect());
    }
    let act = suggest_next_action(&state, Seat::N).unwrap();
    assert!(
        matches!(act, PlayerAction::Pass),
        "midgame dual-wild candidates must not be enumerated → pass, got {act:?}"
    );

    let mut state = mk_playing_state(
        Seat::N,
        vec!["♠2", "♦2", "♥2", "♥2", "♠5", "♥4"],
        Some((Seat::E, fh_top.clone())),
    );
    fill_seats(
        &mut state,
        vec!["♠2", "♦2", "♥2", "♥2", "♠5", "♥4"],
        vec!["♦4", "♣4", "♠10", "♥10", "♦10", "♣10", "♠J", "♥J", "♦J"],
        vec!["♣6", "♥6", "♦6", "♣7", "♥7", "♦7", "♣8", "♥8", "♦8"],
    );
    if let Some(hand) = state.hand.as_mut() {
        hand.hands.insert(Seat::E, e9.iter().map(|s| s.to_string()).collect());
    }
    let act = suggest_next_action(&state, Seat::N).unwrap();
    match act {
        PlayerAction::Play { cards, .. } => {
            assert_eq!(cards.len(), 5, "endgame dual-wild FH must still play, got {cards:?}");
        }
        other => panic!("endgame must keep dual-wild FH available, got {other:?}"),
    }
}

#[test]
fn wild_usage_priority_bomb_straight_over_fh() {
    let fill9 = |state: &mut TableGameState, n: &[&str]| {
        fill_seats(
            state,
            n.to_vec(),
            vec!["♦4", "♣4", "♠10", "♥10", "♦10", "♣10", "♠J", "♥J", "♦J"],
            vec!["♣6", "♥6", "♦6", "♣7", "♥7", "♦7", "♣8", "♥8", "♦8"],
        );
        if let Some(hand) = state.hand.as_mut() {
            hand.hands.insert(
                Seat::E,
                ["♠A", "♥A", "♦A", "♣A", "♠3", "♥3", "♦3", "♣3"]
                    .iter()
                    .map(|s| s.to_string())
                    .collect(),
            );
        }
    };

    let n_hand = ["♠5", "♥5", "♦5", "♥2", "♠3", "♠Q"];
    let mut state = mk_playing_state(
        Seat::N,
        n_hand.to_vec(),
        Some((Seat::E, vec!["♠K", "♥K", "♦K", "♠3", "♥3"])),
    );
    fill9(&mut state, &n_hand);
    let act = suggest_next_action(&state, Seat::N).unwrap();
    match act {
        PlayerAction::Play { cards, .. } => {
            assert_eq!(cards.len(), 4, "wild bomb must be played, got {cards:?}");
            assert!(cards.contains(&"♥2".to_string()), "bomb must use wild, got {cards:?}");
        }
        other => panic!("expected wild bomb, got {other:?}"),
    }

    let n_hand2 = ["♠5", "♥5", "♠6", "♥6", "♠7", "♠8", "♥2", "♠Q", "♠K"];
    let mut state = mk_playing_state(
        Seat::N,
        n_hand2.to_vec(),
        None,
    );
    fill9(&mut state, &n_hand2);
    let act = suggest_next_action(&state, Seat::N).unwrap();
    match act {
        PlayerAction::Play { cards, .. } => {
            assert_eq!(cards.len(), 5, "wild straight must be led, got {cards:?}");
            assert!(cards.contains(&"♥2".to_string()), "straight must use wild, got {cards:?}");
        }
        other => panic!("expected wild straight lead, got {other:?}"),
    }
}

#[test]
fn follow_instead_of_bomb_when_same_type_follow_exists() {
    let fh_top = vec!["♠3", "♥3", "♦3", "♣5", "♥5"];
    let n10 = ["♠8", "♥8", "♦8", "♠4", "♥4", "♠9", "♥9", "♦9", "♥2", "♠3"];
    let fill = |state: &mut TableGameState, n: &[&str], e: &[&str]| {
        fill_seats(
            state,
            n.to_vec(),
            vec!["♦4", "♣4", "♠10", "♥10", "♦10", "♣10", "♠J", "♥J", "♦J", "♣10"],
            vec!["♣6", "♥6", "♦6", "♣7", "♥7", "♦7", "♣8", "♥8", "♦8", "♣J"],
        );
        if let Some(hand) = state.hand.as_mut() {
            hand.hands.insert(Seat::E, e.iter().map(|s| s.to_string()).collect());
        }
    };

    let mut state = mk_playing_state(
        Seat::N,
        n10.to_vec(),
        Some((Seat::E, fh_top.clone())),
    );
    fill(&mut state, &n10, &["♠9", "♥9", "♦9", "♣9", "♠7"]);
    let act = suggest_next_action(&state, Seat::N).unwrap();
    match act {
        PlayerAction::Play { cards, .. } => {
            assert_eq!(cards.len(), 5, "must follow with natural FH, got {cards:?}");
            assert!(!cards.contains(&"♥2".to_string()), "no wild bomb when follow exists, got {cards:?}");
        }
        other => panic!("expected natural FH follow, got {other:?}"),
    }

    let mut state = mk_playing_state(
        Seat::N,
        n10.to_vec(),
        Some((Seat::E, fh_top.clone())),
    );
    fill(&mut state, &n10, &["♠9", "♥9", "♦9", "♣9", "♠7", "♥8", "♦8", "♣8", "♠6"]);
    let act = suggest_next_action(&state, Seat::N).unwrap();
    match act {
        PlayerAction::Play { cards, .. } => {
            assert_eq!(cards.len(), 5, "must follow with natural FH, got {cards:?}");
            assert!(!cards.contains(&"♥2".to_string()), "no wild bomb when follow exists, got {cards:?}");
        }
        other => panic!("expected natural FH follow, got {other:?}"),
    }

    let kf_top = vec!["♠K", "♥K", "♦K", "♠3", "♥3"];
    let n6 = ["♠9", "♥9", "♦9", "♥2", "♠3", "♠4"];
    let mut state = mk_playing_state(
        Seat::N,
        n6.to_vec(),
        Some((Seat::E, kf_top)),
    );
    fill(&mut state, &n6, &["♠9", "♥9", "♦9", "♣9", "♠7"]);
    let act = suggest_next_action(&state, Seat::N).unwrap();
    match act {
        PlayerAction::Play { cards, .. } => {
            assert_eq!(cards.len(), 4, "sprint intercept bomb still allowed, got {cards:?}");
            assert!(cards.contains(&"♥2".to_string()), "wild bomb must play, got {cards:?}");
        }
        other => panic!("expected wild bomb intercept, got {other:?}"),
    }
}

#[test]
fn lead_shape_b_wild_pair_fh_banned_unless_clearing() {
    let mut state = mk_playing_state(
        Seat::N,
        vec!["♠5", "♥5", "♦5", "♠6", "♥2", "♠3", "♠4"],
        None,
    );
    fill_seats(
        &mut state,
        vec!["♠5", "♥5", "♦5", "♠6", "♥2", "♠3", "♠4"],
        vec!["♦4", "♣4", "♠10", "♥10", "♦10", "♣10", "♠J"],
        vec!["♣6", "♥6", "♦6", "♣7", "♥7", "♦7", "♣8"],
    );
    let act = suggest_next_action(&state, Seat::N).unwrap();
    match act {
        PlayerAction::Play { cards, .. } => {
            let shape_b_like = cards.len() == 5
                && cards.contains(&"♥2".to_string())
                && ((cards.contains(&"♥5".to_string()) && cards.contains(&"♦5".to_string()))
                    || (cards.contains(&"♠5".to_string()) && cards.contains(&"♥5".to_string()))
                    || (cards.contains(&"♠5".to_string()) && cards.contains(&"♦5".to_string())));
            assert!(!shape_b_like, "Shape B FH must not be led midgame, got {cards:?}");
        }
        other => panic!("expected a lead, got {other:?}"),
    }

    let mut state = mk_playing_state(
        Seat::N,
        vec!["♠5", "♥5", "♦5", "♠6", "♥2"],
        None,
    );
    fill_seats(
        &mut state,
        vec!["♠5", "♥5", "♦5", "♠6", "♥2"],
        vec!["♦4", "♣4", "♠10", "♥10", "♦10"],
        vec!["♣6", "♥6", "♦6", "♣7", "♥7"],
    );
    let act = suggest_next_action(&state, Seat::N).unwrap();
    match act {
        PlayerAction::Play { cards, .. } => {
            assert_eq!(cards.len(), 5, "clearing exempts Shape B lead ban, got {cards:?}");
        }
        other => panic!("clearing Shape B fh must lead, got {other:?}"),
    }
}

#[test]
fn lead_dual_wild_candidates_gated_midgame() {
    let n8 = vec!["♥2", "♥2", "♠5", "♥5", "♦5", "♠6", "♠3", "♠4"];
    let mut state = mk_playing_state(Seat::N, n8.clone(), None);
    fill_seats(
        &mut state,
        n8.clone(),
        vec!["♦4", "♣4", "♠10", "♥10", "♦10", "♣10", "♠J", "♥J"],
        vec!["♣6", "♥6", "♦6", "♣7", "♥7", "♦7", "♣8", "♥8"],
    );
    let act = suggest_next_action(&state, Seat::N).unwrap();
    match act {
        PlayerAction::Play { cards, .. } => {
            assert!(
                !(cards.len() == 2 && cards.iter().all(|c| c == "♥2")),
                "dual-wild pair must not be led midgame, got {cards:?}"
            );
        }
        other => panic!("expected a lead, got {other:?}"),
    }
}

#[test]
fn fh_222_banned_midgame_when_two_not_level() {
    let n8 = vec!["♠9", "♥9", "♦9", "♣9", "♠10", "♥10", "♦10", "♣10"];
    let mut state = mk_playing_state_level(
        Seat::N,
        n8.clone(),
        Some((Seat::E, vec!["♠2", "♦2", "♣2", "♠5", "♥5"])),
        HandLevel::Eight,
    );
    fill_seats(
        &mut state,
        n8.clone(),
        vec!["♦3", "♣3", "♠7", "♥7", "♦9", "♣9", "♠K", "♥K", "♠A"],
        vec!["♠J", "♥J", "♦J", "♣J", "♠6", "♥6", "♦6", "♣6"],
    );
    let act = suggest_next_action(&state, Seat::N).unwrap();
    match act {
        PlayerAction::Pass => {}
        PlayerAction::Play { cards, .. } => {
            panic!("222+xx is the smallest FH (<Q) — midgame bomb must be banned, got {cards:?}")
        }
        other => panic!("expected pass or play, got {other:?}"),
    }
}

#[test]
fn fh_wild_pair_banned_and_wild_triple_penalized() {
    let fh_top = vec!["♠3", "♥3", "♦3", "♣5", "♥5"];
    let e9 = ["♠9", "♥9", "♦9", "♣9", "♠8", "♥8", "♦8", "♣8", "♠7"];
    let fill = |state: &mut TableGameState, n: &[&str], e: &[&str]| {
        fill_seats(
            state,
            n.to_vec(),
            vec!["♦4", "♣4", "♠10", "♥10", "♦10", "♣10", "♠J", "♥J", "♦J"],
            vec!["♣6", "♥6", "♦6", "♣7", "♥7", "♦7", "♣8", "♥8", "♦8"],
        );
        if let Some(hand) = state.hand.as_mut() {
            hand.hands.insert(Seat::E, e.iter().map(|s| s.to_string()).collect());
        }
    };

    let mut state = mk_playing_state(
        Seat::N,
        vec!["♠5", "♥5", "♦5", "♠6", "♥2", "♠3", "♥4"],
        Some((Seat::E, fh_top.clone())),
    );
    fill(&mut state, &["♠5", "♥5", "♦5", "♠6", "♥2", "♠3", "♥4"], &e9);
    let act = suggest_next_action(&state, Seat::N).unwrap();
    assert!(
        matches!(act, PlayerAction::Pass),
        "wild-pair FH must be banned → pass, got {act:?}"
    );

    let mut state = mk_playing_state(
        Seat::N,
        vec!["♠5", "♥5", "♦5", "♠6", "♥2"],
        Some((Seat::E, fh_top.clone())),
    );
    fill(&mut state, &["♠5", "♥5", "♦5", "♠6", "♥2"], &e9);
    let act = suggest_next_action(&state, Seat::N).unwrap();
    match act {
        PlayerAction::Play { cards, .. } => assert_eq!(cards.len(), 5, "clearing exempts ban, got {cards:?}"),
        other => panic!("clearing must allow wild-pair FH, got {other:?}"),
    }

    let mut state = mk_playing_state(
        Seat::N,
        vec!["♠5", "♥5", "♦5", "♠6", "♥2", "♠3", "♥4"],
        Some((Seat::E, fh_top.clone())),
    );
    fill(&mut state, &["♠5", "♥5", "♦5", "♠6", "♥2", "♠3", "♥4"], &["♠9"]);
    let act = suggest_next_action(&state, Seat::N).unwrap();
    match act {
        PlayerAction::Play { cards, .. } => assert_eq!(cards.len(), 5, "sprint exempts ban, got {cards:?}"),
        other => panic!("sprint must allow wild-pair FH, got {other:?}"),
    }

    let mut state = mk_playing_state(
        Seat::N,
        vec!["♠5", "♥5", "♥2", "♠6", "♥6", "♠3", "♠4"],
        Some((Seat::E, fh_top.clone())),
    );
    fill(&mut state, &["♠5", "♥5", "♥2", "♠6", "♥6", "♠3", "♠4"], &e9);
    let act = suggest_next_action(&state, Seat::N).unwrap();
    match act {
        PlayerAction::Play { cards, .. } => {
            assert_eq!(cards.len(), 5, "wild-triple FH still plays, got {cards:?}");
            assert!(cards.contains(&"♥2".to_string()));
        }
        other => panic!("wild-triple FH must not be banned, got {other:?}"),
    }

    let mut state = mk_playing_state(
        Seat::N,
        vec!["♠5", "♥5", "♦5", "♠6", "♥6", "♥2", "♠4"],
        Some((Seat::E, fh_top.clone())),
    );
    fill(&mut state, &["♠5", "♥5", "♦5", "♠6", "♥6", "♥2", "♠4"], &e9);
    let act = suggest_next_action(&state, Seat::N).unwrap();
    match act {
        PlayerAction::Play { cards, .. } => {
            assert_eq!(cards.len(), 5, "natural FH must win, got {cards:?}");
            assert!(!cards.contains(&"♥2".to_string()), "must not burn wild, got {cards:?}");
        }
        other => panic!("natural FH must be preferred, got {other:?}"),
    }
}

#[test]
fn fh_with_level_triple_and_wild_pair_is_banned_vs_opponent() {
    let fill_e = |state: &mut TableGameState, cards: &[&str]| {
        if let Some(hand) = state.hand.as_mut() {
            hand.hands.insert(Seat::E, cards.iter().map(|s| s.to_string()).collect());
        }
    };
    let fh_top = vec!["♠3", "♥3", "♦3", "♣5", "♥5"];
    let s9 = ["♠9", "♥9", "♦9", "♣9", "♠8", "♥8", "♦8", "♣8", "♠7"];

    let mut state = mk_playing_state(
        Seat::N,
        vec!["♠2", "♦2", "♣2", "♥2", "♠5", "♥4", "♠6"],
        Some((Seat::E, fh_top.clone())),
    );
    fill_seats(
        &mut state,
        vec!["♠2", "♦2", "♣2", "♥2", "♠5", "♥4", "♠6"],
        vec!["♦4", "♣4", "♠10", "♥10", "♦10", "♣10", "♠J", "♥J", "♦J"],
        vec!["♣6", "♥6", "♦6", "♣7", "♥7", "♦7", "♣8", "♥8", "♦8"],
    );
    fill_e(&mut state, &s9);
    let act = suggest_next_action(&state, Seat::N).unwrap();
    assert!(
        matches!(act, PlayerAction::Pass),
        "level-triple wild FH must be banned → pass, got {act:?}"
    );

    let mut state = mk_playing_state(
        Seat::N,
        vec!["♠2", "♦2", "♣2", "♥2", "♠5"],
        Some((Seat::E, fh_top.clone())),
    );
    fill_seats(
        &mut state,
        vec!["♠2", "♦2", "♣2", "♥2", "♠5"],
        vec!["♦4", "♣4", "♠10", "♥10", "♦10", "♣10", "♠J", "♥J", "♦J"],
        vec!["♣6", "♥6", "♦6", "♣7", "♥7", "♦7", "♣8", "♥8", "♦8"],
    );
    fill_e(&mut state, &s9);
    let act = suggest_next_action(&state, Seat::N).unwrap();
    match act {
        PlayerAction::Play { cards, .. } => {
            assert_eq!(cards.len(), 5, "clearing exempts the ban, got {cards:?}");
            assert_eq!(cards.iter().filter(|c| c.ends_with('2')).count(), 4);
        }
        other => panic!("clearing must allow level FH, got {other:?}"),
    }

    let mut state = mk_playing_state(
        Seat::N,
        vec!["♠2", "♦2", "♣2", "♥2", "♠5", "♥4", "♠6"],
        Some((Seat::E, fh_top.clone())),
    );
    fill_seats(
        &mut state,
        vec!["♠2", "♦2", "♣2", "♥2", "♠5", "♥4", "♠6"],
        vec!["♦4", "♣4", "♠10", "♥10", "♦10", "♣10", "♠J", "♥J", "♦J"],
        vec!["♣6", "♥6", "♦6", "♣7", "♥7", "♦7", "♣8", "♥8", "♦8"],
    );
    fill_e(&mut state, &["♠9"]);
    let act = suggest_next_action(&state, Seat::N).unwrap();
    match act {
        PlayerAction::Play { cards, .. } => {
            assert_eq!(cards.len(), 5, "sprint exempts the ban, got {cards:?}");
        }
        other => panic!("sprint must allow level FH intercept, got {other:?}"),
    }

    let mut state = mk_playing_state(
        Seat::N,
        vec!["♠A", "♥A", "♦A", "♥2", "♠5", "♥4", "♠6"],
        Some((Seat::E, fh_top.clone())),
    );
    fill_seats(
        &mut state,
        vec!["♠A", "♥A", "♦A", "♥2", "♠5", "♥4", "♠6"],
        vec!["♦4", "♣4", "♠10", "♥10", "♦10", "♣10", "♠J", "♥J", "♦J"],
        vec!["♣6", "♥6", "♦6", "♣7", "♥7", "♦7", "♣8", "♥8", "♦8"],
    );
    fill_e(&mut state, &s9);
    let act = suggest_next_action(&state, Seat::N).unwrap();
    assert!(
        matches!(act, PlayerAction::Pass),
        "non-level natural-triple wild-pair FH also banned → pass, got {act:?}"
    );
}

#[test]
fn wild_pair_triple_is_waste_unless_clearing_or_sprint() {
    let fill_e = |state: &mut TableGameState| {
        if let Some(hand) = state.hand.as_mut() {
            hand.hands.insert(
                Seat::E,
                ["♠A", "♥A", "♦A", "♣A", "♠Q", "♥Q", "♦Q", "♣Q"]
                    .iter()
                    .map(|s| s.to_string())
                    .collect(),
            );
        }
    };
    let mut state = mk_playing_state(
        Seat::N,
        vec!["♠8", "♥8", "♥2", "♠9", "♥4", "♦6", "♣7"],
        Some((Seat::E, vec!["♠5", "♥5", "♦5"])),
    );
    fill_seats(
        &mut state,
        vec!["♠8", "♥8", "♥2", "♠9", "♥4", "♦6", "♣7"],
        vec!["♦3", "♣3", "♠7", "♥7", "♦9", "♣9", "♠6"],
        vec!["♣10", "♦10", "♠J", "♥J", "♦J", "♣J", "♠Q"],
    );
    fill_e(&mut state);
    let act = suggest_next_action(&state, Seat::N).unwrap();
    assert!(
        matches!(act, PlayerAction::Pass),
        "midgame wild-pair triple is waste: must pass, got {act:?}"
    );

    let mut state = mk_playing_state(
        Seat::N,
        vec!["♠8", "♥8", "♥2", "♠9", "♥4", "♦6", "♣7"],
        Some((Seat::E, vec!["♠5", "♥5", "♦5"])),
    );
    fill_seats(
        &mut state,
        vec!["♠8", "♥8", "♥2", "♠9", "♥4", "♦6", "♣7"],
        vec!["♦3", "♣3", "♠7", "♥7", "♦9", "♣9", "♠6"],
        vec!["♣10", "♦10", "♠J"],
    );
    fill_e(&mut state);
    let act = suggest_next_action(&state, Seat::N).unwrap();
    match act {
        PlayerAction::Play { cards, .. } => {
            assert_eq!(
                cards,
                vec!["♠8", "♥8", "♥2"],
                "sprint allows the wild-triple intercept, got {cards:?}"
            );
        }
        other => panic!("expected play under sprint, got {other:?}"),
    }

    let mut state = mk_playing_state(
        Seat::N,
        vec!["♠8", "♥8", "♥2", "♠9", "♥4", "♦6", "♣7"],
        None,
    );
    fill_seats(
        &mut state,
        vec!["♠8", "♥8", "♥2", "♠9", "♥4", "♦6", "♣7"],
        vec!["♦3", "♣3", "♠7", "♥7", "♦9", "♣9", "♠6"],
        vec!["♣10", "♦10", "♠J", "♥J", "♦J", "♣J", "♠Q"],
    );
    fill_e(&mut state);
    let act = suggest_next_action(&state, Seat::N).unwrap();
    match act {
        PlayerAction::Play { cards, .. } => {
            let is_wild_triple = cards.len() == 3 && cards.iter().any(|c| c == "♥2");
            assert!(!is_wild_triple, "must not lead wild-pair triple, got {cards:?}");
        }
        other => panic!("expected play, got {other:?}"),
    }
}

#[test]
fn pool_stats_counts_double_deck_correctly() {
    let mut state = mk_playing_state(Seat::E, vec!["♠3", "♥3", "🃏R"], None);
    fill_seats(
        &mut state,
        vec!["♦3", "♣3"],
        vec!["♠4", "♥4", "♦4", "♣4", "♠5", "♥5", "♦5", "♣5", "♠6"],
        vec!["♥6", "♦6", "♣6", "♠7", "♥7", "♦7", "♣7", "♠8", "♥8"],
    );
    state.hand.as_mut().unwrap().history = vec![history_entry(Seat::N, vec!["♦3", "♣3"])];
    let p = pctx_of(&state, Seat::E);
    assert_eq!(p.pool.total, 103, "双副牌108 − 已见5");
    assert_eq!(p.pool.rank_counts[3], 4, "rank3: 8−4=4");
    assert_eq!(p.pool.rank_counts[17], 1, "红王: 2−1=1");
    assert_eq!(
        p.pool.suffix_ge[15],
        p.pool.rank_counts[15] + p.pool.rank_counts[16] + p.pool.rank_counts[17],
        "≥2 = 点数2 + 双王"
    );
}

#[test]
fn prob_functions_sanity() {
    let mut state = mk_playing_state(Seat::E, vec!["♠3", "♥3", "🃏R"], None);
    fill_seats(
        &mut state,
        vec!["♦3", "♣3", "♠4", "♥4", "♦4", "♣4", "♠5", "♥5", "♦5"],
        vec!["♣5", "♠6", "♥6", "♦6", "♣6", "♠7", "♥7", "♦7", "♣7"],
        vec!["♠8", "♥8", "♦8", "♣8", "♠9", "♥9", "♦9", "♣9", "♠10"],
    );
    state.hand.as_mut().unwrap().history = vec![history_entry(Seat::N, vec!["♦3", "♣3"])];
    let p = pctx_of(&state, Seat::E);
    assert_eq!(ratio(p.prob_rank_in_hand(Seat::E, 3)), 0.0, "自己恒 0");
    assert_eq!(ratio(p.prob_has_bomb(Seat::E)), 0.0, "自己恒 0");
    let has_rank3 = ratio(p.opponent_has_rank(3));
    assert!(has_rank3 > 0.0 && has_rank3 <= 1.0, "rank3 概率 (0,1]，got {has_rank3}");
    let bomb = ratio(p.opponent_bomb_prob());
    assert!((0.0..=1.0).contains(&bomb), "炸弹概率 ∈[0,1], got {bomb}");
    let win = ratio(p.game_win_prob());
    assert!((0.0..=1.0).contains(&win), "胜率 ∈[0,1], got {win}");
}

#[test]
fn chances_have_exact_values() {
    let mut state = mk_playing_state(Seat::E, vec!["♠3", "♥3", "🃏R"], None);
    fill_seats(&mut state, vec!["♠4"; 9], vec!["♠5"; 9], vec!["♠6"; 20]);
    state.hand.as_mut().unwrap().history = vec![history_entry(Seat::N, vec!["♦3", "♣3"])];
    let p = pctx_of(&state, Seat::E);
    let rank = p.prob_rank_in_hand(Seat::N, 3);
    assert_eq!((rank.num, rank.den), (4 * 9, 103 * 103));
    let follow = p.prob_can_follow(Seat::N, 15);
    assert_eq!((follow.num, follow.den), (8 + 2 + 1, 103));
    let bomb = p.prob_has_bomb(Seat::W);
    assert_eq!((bomb.num, bomb.den), (400, 400));
    let others = p.opponent_has_rank(3);
    assert_eq!((others.num, others.den), (4 * (9 + 9 + 20), 103 * 103));
    let enemy = p.opponent_bomb_prob();
    assert_eq!((enemy.num, enemy.den), (20 * 9, 400));
    let win = p.game_win_prob();
    assert_eq!((win.num, win.den), (23 * (4000 - 3 * 180), 41 * 4000));
}

fn nine_each(actor_hand: Vec<&str>, top: Option<(Seat, Vec<&str>)>) -> TableGameState {
    let mut state = mk_playing_state(Seat::E, actor_hand, top);
    fill_seats(&mut state, vec!["♠4"; 9], vec!["♠5"; 9], vec!["♠6"; 9]);
    state
}

fn lead_points(hand: Vec<&str>, play: &str, solver: bool) -> i128 {
    let state = nine_each(hand, None);
    let p = pctx_of(&state, Seat::E);
    let cards = parse_cards(&[play.to_string()]).unwrap();
    let combo = combo_of(vec![play], vec![]);
    let mut memo = TrickMemo::new(ctx());
    score_lead(&cards, &combo, &p, solver, &mut memo)
}

#[test]
fn points_have_exact_values() {
    const POINT: i128 = 100_000_000;
    // 50, a length step of 8, half a point off for each step of rank, 30 for three in a row,
    // 150 off for single cards, and 20, 15 and 10 for a small single card.
    let hand = vec!["♠3", "♥3", "♠5", "♠6", "♠7", "♠9", "♦J"];
    let lead = 50 + 8 - 4 + 30 - 150 + 20 + 15 + 10;
    assert_eq!(lead_points(hand.clone(), "♠9", true), lead * POINT);
    // In the endgame single cards go first, and each trick that is left costs 500.
    let small = vec!["♠3", "♥3", "♠5", "♠6", "♠7"];
    let lead = 50 + 5 - 6 + 400 + 300 - 100 - 150 + 30 - 80 + 20 + 15 + 10;
    assert_eq!(lead_points(small.clone(), "♠5", false), lead * POINT);
    assert_eq!(lead_points(small, "♠5", true), (lead + 15 - 3 * 500) * POINT);
    // 100, two off for each step above the single on the table, three off for the card.
    let state = nine_each(hand, Some((Seat::N, vec!["♠7"])));
    let p = pctx_of(&state, Seat::E);
    let top = mk_top(Seat::N, vec!["♠7"]);
    let play = vec!["♠9".to_string()];
    let score = score_follow(&play, &combo_of(vec!["♠9"], vec![]), &top, &p);
    assert_eq!(score, 100.0 - 2.0 * 2.0 - 3.0);
}

#[test]
fn mutation_never_moves_house_thresholds() {
    let base = AdvancedBotParams::house_params();
    for _ in 0..300 {
        let m = base.mutate_random(5_000_000);
        assert_eq!(m.enemy_low_cards_threshold, 6, "冲刺阈值必须锁死为 6");
        assert_eq!(m.endgame_hand_count_threshold, 6, "残局阈值必须锁死为 6");
        assert_eq!(m.partner_sprint_threshold, 2, "队友冲刺阈值必须锁死为 2");
    }
}

#[test]
fn suggest_follow_play_prefers_non_bomb_when_both_legal() {
    let state = mk_playing_state(
        Seat::E,
        vec!["♠7", "♠8", "♥8", "♦8", "♣8"],
        Some((Seat::N, vec!["♠6"])),
    );
    let picked = suggest_next_action(&state, Seat::E).unwrap();
    assert_eq!(
        picked,
        PlayerAction::Play {
            cards: vec!["♠7".into()],
            wild_targets: None,
        }
    );
}

#[test]
fn suggest_returns_pass_when_no_play_can_beat_top() {
    let state = mk_playing_state(Seat::E, vec!["♠3"], Some((Seat::N, vec!["♠A"])));
    let picked = suggest_next_action(&state, Seat::E).unwrap();
    assert_eq!(picked, PlayerAction::Pass);
}

#[test]
fn avoids_splitting_bomb_when_leading() {
    let state = mk_playing_state(
        Seat::E,
        vec!["♠3", "♥3", "♦3", "♣3", "♠5"],
        None,
    );
    let picked = suggest_next_action(&state, Seat::E).unwrap();
    assert_eq!(
        picked,
        PlayerAction::Play {
            cards: vec!["♠5".into()],
            wild_targets: None,
        }
    );
}

#[test]
fn endgame_leading_prefers_larger_non_bomb_combos() {
    let state = mk_playing_state(
        Seat::E,
        vec!["♠3", "♥3", "♠5", "♠6", "♠7"],
        None,
    );
    let picked = suggest_next_action(&state, Seat::E).unwrap();
    assert_eq!(
        picked,
        PlayerAction::Play {
            cards: vec!["♠5".into()],
            wild_targets: None,
        },
        "endgame tie → shed the junk single, keep the pair for retake"
    );
}

#[test]
fn two_card_wild_hand_pairs_out_instead_of_stranding() {
    let state = mk_playing_state(Seat::E, vec!["♦9", "♥2"], None);
    let picked = suggest_next_action(&state, Seat::E).unwrap();
    match &picked {
        PlayerAction::Play { cards, wild_targets } => {
            assert_eq!(
                cards.len(), 2,
                "must pair out with wild instead of stranding it: {:?}",
                picked
            );
            assert!(wild_targets.is_some(), "wild pair must declare targets");
        }
        _ => panic!("Expected Play action, got {:?}", picked),
    }
}

#[test]
fn clearing_triple_with_wild_beats_natural_pair() {
    let state = mk_playing_state(Seat::E, vec!["♠9", "♥9", "♥2"], None);
    let picked = suggest_next_action(&state, Seat::E).unwrap();
    match &picked {
        PlayerAction::Play { cards, .. } => {
            assert_eq!(
                cards.len(), 3,
                "clearing triple (instant win) must beat non-clearing pair: {:?}",
                picked
            );
        }
        _ => panic!("Expected Play action, got {:?}", picked),
    }
}

#[test]
fn never_leaves_wild_as_lone_leftover() {
    let state = mk_playing_state(Seat::E, vec!["♠3", "♥3", "♦3", "♣3", "♥2"], None);
    let picked = suggest_next_action(&state, Seat::E).unwrap();
    if let PlayerAction::Play { cards, .. } = &picked {
        let mut left: Vec<&str> = vec!["♠3", "♥3", "♦3", "♣3", "♥2"]
            .into_iter()
            .filter(|c| !cards.iter().any(|s| s.as_str() == *c))
            .collect();
        left.sort();
        assert_ne!(
            left,
            vec!["♥2"],
            "must not strand the wild as the lone leftover: picked {:?}",
            cards
        );
    } else {
        panic!("Expected Play action, got {:?}", picked);
    }
}

#[test]
fn wild_pair_midgame_excluded_without_natural_follow() {
    let mut state = mk_playing_state(
        Seat::E,
        vec!["♥2", "♠K", "♠3", "♠7", "♠8", "♠9", "♠10"],
        Some((Seat::N, vec!["♠9", "♥9"])),
    );
    fill_seats(
        &mut state,
        vec!["♣3", "♠4", "♥4", "♦4", "♣6", "♥6", "♦8", "♣8", "♦J"],
        vec!["♦3", "♣7", "♥7", "♦9", "♣9", "♠J", "♥J", "♦Q", "♣Q"],
        vec!["♠5", "♥5", "♦6", "♠8", "♥10", "♦10", "♣10", "♥Q", "♦K"],
    );
    let picked = suggest_next_action(&state, Seat::E).unwrap();
    assert!(
        matches!(picked, PlayerAction::Pass),
        "中盘百搭配单张成对必须被排除（过牌不烧百搭），got {:?}",
        picked
    );
}

#[test]
fn wild_sf_with_straight_leftover_beats_plain_run_lead() {
    let mut state = mk_playing_state(
        Seat::E,
        vec!["♥2", "♠4", "♠5", "♠6", "♠7", "♦8", "♦9", "♦10", "♦J", "♦Q"],
        None,
    );
    fill_seats(
        &mut state,
        vec!["♣3", "♠7", "♥7", "♦7", "♣7", "♠9", "♥9", "♦9", "♣9"],
        vec!["♦3", "♣3", "♠6", "♥6", "♦6", "♣6", "♠8", "♥8", "♦8"],
        vec!["♠A", "♥A", "♦A", "♣3", "♣5", "♣10"],
    );
    let picked = suggest_next_action(&state, Seat::E).unwrap();
    match &picked {
        PlayerAction::Play { cards, wild_targets } => {
            let combo = CombinationParser::parse(cards, wild_targets.as_deref(), ctx())
                .expect("candidate must parse");
            assert!(
                matches!(combo.class(), CombinationClass::Bomb)
                    && cards.len() == 5
                    && cards.contains(&"♥2".to_string())
                    && cards.contains(&"♠4".to_string())
                    && cards.contains(&"♠7".to_string()),
                "百搭SF剩顺两墩计划必须胜出杂顺领出（拆牌质量奖励），got {:?}",
                picked
            );
        }
        other => panic!("Expected Play (wild SF), got {:?}", other),
    }
}

#[test]
fn wild_sf_with_many_single_leftover_avoided() {
    let mut state = mk_playing_state(
        Seat::E,
        vec!["♥2", "♠4", "♠5", "♠6", "♠7", "♠K", "♥K", "♦K", "♣K", "♦3", "♣9", "♠J"],
        None,
    );
    fill_seats(
        &mut state,
        vec!["♣3", "♠7", "♥7", "♦7", "♣7", "♠9", "♥9", "♦9", "♣9"],
        vec!["♦3", "♣3", "♠6", "♥6", "♦6", "♣6", "♠8", "♥8", "♦8"],
        vec!["♠A", "♥A", "♦A", "♣5", "♣10", "♠2", "♥3", "♦4", "♣8"],
    );
    let picked = suggest_next_action(&state, Seat::E).unwrap();
    match &picked {
        PlayerAction::Play { cards, wild_targets } => {
            let combo = CombinationParser::parse(cards, wild_targets.as_deref(), ctx())
                .expect("candidate must parse");
            let is_wild_sf = cards.len() == 5
                && cards.contains(&"♥2".to_string())
                && cards.contains(&"♠4".to_string())
                && cards.contains(&"♠7".to_string())
                && matches!(combo.class(), CombinationClass::Bomb);
            assert!(
                !is_wild_sf,
                "SF 拆完散单≥3 必须被惩罚回避（不得领出该百搭同花顺），got {:?}",
                picked
            );
        }
        other => panic!("Expected Play action, got {:?}", other),
    }
}

#[test]
fn wild_pair_rescues_strand_when_natural_follow_exists() {
    let mut state = mk_playing_state(
        Seat::E,
        vec!["♠K", "♥K", "♥2"],
        Some((Seat::N, vec!["♠9", "♥9"])),
    );
    fill_seats(
        &mut state,
        vec!["♦9", "♣9", "♣4", "♥4", "♦4", "♠4", "♣6", "♥6", "♦6"],
        vec!["♣6", "♠10", "♥10", "♦10", "♣10", "♠3", "♥3", "♦3", "♣3"],
        vec!["♠Q", "♥Q", "♦Q", "♣Q", "♠J", "♥J", "♦J", "♣J", "♠8"],
    );
    let picked = suggest_next_action(&state, Seat::E).unwrap();
    match &picked {
        PlayerAction::Play { cards, .. } => {
            assert!(
                cards.len() == 2 && cards.contains(&"♥2".to_string()),
                "天然平跟会留百搭孤张时必须带百搭出对救孤（反孤儿条款），got {:?}",
                picked
            );
        }
        other => panic!("Expected Play (K+百搭对子救孤), got {:?}", other),
    }
}

#[test]
fn endgame_wild_converts_to_straight_or_straight_flush() {
    let state = mk_playing_state(Seat::E, vec!["♠5", "♠6", "♠7", "♠8", "♠9", "♥2"], None);
    let picked = suggest_next_action(&state, Seat::E).unwrap();
    match &picked {
        PlayerAction::Play { cards, wild_targets } => {
            let combo = CombinationParser::parse(cards, wild_targets.as_deref(), ctx())
                .expect("candidate must parse");
            let premium = matches!(
                combo.kind,
                CombinationKind::Bomb(BombKind::StraightFlush)
                    | CombinationKind::Ordinary(OrdinaryKind::Straight)
            );
            assert!(
                premium && cards.iter().any(|s| s.as_str() == "♥2"),
                "endgame wild must convert to a straight / straight flush, got {:?}",
                picked
            );
        }
        _ => panic!("Expected Play action, got {:?}", picked),
    }
}

#[test]
fn wild_bomb_bonus_beats_wild_straight_bonus() {
    let mut state = mk_playing_state(
        Seat::E,
        vec![
            "♠5", "♥5", "♦5", "♠6", "♠7", "♠8", "♠9", "♠10", "♠J", "♠Q", "♠K", "♠A", "♠3",
            "♥2",
        ],
        Some((Seat::N, vec!["♠4"])),
    );
    fill_seats(
        &mut state,
        vec!["♦4", "♣4", "♦5", "♣5", "♦6"],
        vec!["♥6", "♣6", "♦7", "♣7", "♦8"],
        vec!["♥9", "♦9", "♣9", "♥10", "♦10", "♣10", "♦J", "♣J", "♣Q"],
    );
    let p = pctx_of(&state, Seat::E);
    let top = mk_top(Seat::N, vec!["♠4"]);

    let bomb_cards = vec!["♠5".to_string(), "♥5".to_string(), "♦5".to_string(), "♥2".to_string()];
    let bomb_combo = combo_of(vec!["♠5", "♥5", "♦5", "♥2"], vec!["♣5"]);
    let straight_cards = vec![
        "♥2".to_string(),
        "♠5".to_string(),
        "♠6".to_string(),
        "♠7".to_string(),
        "♠8".to_string(),
    ];
    let straight_combo = combo_of(vec!["♥2", "♠5", "♠6", "♠7", "♠8"], vec!["♦4"]);

    let bomb_score = score_follow(&bomb_cards, &bomb_combo, &top, &p);
    let straight_score = score_follow(&straight_cards, &straight_combo, &top, &p);
    assert!(
        bomb_score > straight_score,
        "wild-in-bomb (+100) must outscore wild-in-straight (+30): bomb={bomb_score} straight={straight_score}"
    );
}

#[test]
fn wild_single_banned_unless_clearing() {
    let mut state = mk_playing_state(
        Seat::E,
        vec!["♥2", "♠3", "♠4"],
        Some((Seat::N, vec!["♠5"])),
    );
    fill_seats(&mut state, vec!["♦5"], vec!["♥5"], vec!["♦6"]);
    let p = pctx_of(&state, Seat::E);
    let top = mk_top(Seat::N, vec!["♠5"]);

    let single_cards = vec!["♥2".to_string()];
    let single_combo = combo_of(vec!["♥2"], vec!["♠K"]);
    let s = score_follow(&single_cards, &single_combo, &top, &p);
    assert!(s < -50000.0, "wild single (non-clearing) must be banned: {s}");

    let mut clear_state = mk_playing_state(Seat::E, vec!["♥2"], Some((Seat::N, vec!["♠3"])));
    fill_seats(&mut clear_state, vec!["♦5"], vec!["♥5"], vec!["♦6"]);
    let cp = pctx_of(&clear_state, Seat::E);
    let ctop = mk_top(Seat::N, vec!["♠3"]);
    let clear_cards = vec!["♥2".to_string()];
    let clear_combo = combo_of(vec!["♥2"], vec!["♠K"]);
    let cs = score_follow(&clear_cards, &clear_combo, &ctop, &cp);
    assert!(cs > 9000.0, "clearing wild single must be exempt: {cs}");

    let wild_pair_state = mk_playing_state(Seat::E, vec!["♥2", "♥2"], None);
    let picked = suggest_next_action(&wild_pair_state, Seat::E).unwrap();
    match &picked {
        PlayerAction::Play { cards, .. } => {
            assert_eq!(cards.len(), 2, "all-wild hand must pair out, got {:?}", picked);
        }
        other => panic!("Expected Play (pair), got {:?}", other),
    }
}

#[test]
fn upgraded_bomb_wild_penalty_midgame_vs_endgame() {
    let play_cards = vec!["♠5", "♥5", "♦5", "♣5", "♥2"];
    let bomb5 = combo_of(play_cards.clone(), vec!["♦5"]);
    let top = mk_top(Seat::N, vec!["♦4", "♣4", "♥4", "♠9", "♦9"]);

    let mut mid = mk_playing_state(
        Seat::E,
        vec!["♠5", "♥5", "♦5", "♣5", "♥2", "♠8", "♠9"],
        None,
    );
    fill_seats(
        &mut mid,
        vec!["♠4", "♥4", "♣5", "♥5", "♦6", "♣6", "♥6", "♦7", "♣7"],
        vec!["♠6", "♥7", "♦8", "♣8", "♠10", "♥10", "♦10", "♣10", "♠J"],
        vec!["♥J", "♦J", "♣J", "♠Q", "♥Q", "♦Q", "♣Q", "♠K", "♦K"],
    );
    let mid_p = pctx_of(&mid, Seat::E);
    let mid_cards: Vec<String> = play_cards.iter().map(|s| s.to_string()).collect();
    let mid_score = score_follow(&mid_cards, &bomb5, &top, &mid_p);

    let mut endg = mk_playing_state(
        Seat::E,
        vec!["♠5", "♥5", "♦5", "♣5", "♥2", "♠8"],
        None,
    );
    fill_seats(
        &mut endg,
        vec!["♠4", "♥4", "♣5", "♥5", "♦6", "♣6", "♥6", "♦7", "♣7"],
        vec!["♠6", "♥7", "♦8", "♣8", "♠10", "♥10", "♦10", "♣10", "♠J"],
        vec!["♥J", "♦J", "♣J", "♠Q", "♥Q", "♦Q", "♣Q", "♠K", "♦K"],
    );
    let end_p = pctx_of(&endg, Seat::E);
    let end_score = score_follow(&mid_cards, &bomb5, &top, &end_p);

    assert!(mid_score < 0.0, "midgame upgraded bomb must be heavily penalized: {mid_score}");
    assert!(end_score > 0.0, "endgame upgraded bomb must stay viable: {end_score}");
    assert!(
        end_score - mid_score > 100.0,
        "endgame (−10) must beat midgame (−150) by >100: {end_score} vs {mid_score}"
    );
}

#[test]
fn endgame_lead_single_removal_reward() {
    let mut state = mk_playing_state(
        Seat::E,
        vec!["♠3", "♥3", "♠7", "♠K", "♠8", "♠9"],
        None,
    );
    fill_seats(
        &mut state,
        vec!["♦3", "♣3", "♦7", "♣7", "♦8", "♣8", "♦9", "♣9", "♦4"],
        vec!["♠4", "♥4", "♠5", "♥5", "♦5", "♣5", "♠6", "♥6", "♦6"],
        vec!["♠10", "♥10", "♦10", "♣10", "♠J", "♥J", "♦J", "♣J", "♠Q"],
    );
    let picked = suggest_next_action(&state, Seat::E).unwrap();
    assert_eq!(
        picked,
        PlayerAction::Play {
            cards: vec!["♠7".into()],
            wild_targets: None,
        },
        "endgame removal reward must prefer the small single, got {:?}",
        picked
    );
}

#[test]
fn endgame_split_bomb_banned_prefers_alternative() {
    let mut state = mk_playing_state(
        Seat::E,
        vec!["♠5", "♥5", "♦5", "♣5", "♠7", "♥7"],
        Some((Seat::N, vec!["♠6", "♥6"])),
    );
    fill_seats(
        &mut state,
        vec!["♦6", "♣6", "♦8", "♣8", "♦9", "♣9", "♦10", "♣10", "♦J"],
        vec!["♠8", "♥8", "♠9", "♥9", "♠10", "♥10", "♣10", "♠J", "♥J"],
        vec!["♠Q", "♥Q", "♦Q", "♣Q", "♠K", "♥K", "♦K", "♣K", "♠A"],
    );
    let picked = suggest_next_action(&state, Seat::E).unwrap();
    match &picked {
        PlayerAction::Pass => {}
        PlayerAction::Play { cards, .. } => {
            let is_banned_split = cards.len() == 2
                && cards.iter().all(|c| c.ends_with('5'));
            assert!(
                !is_banned_split,
                "splitting the bomb into a pair is banned in endgame, got {:?}",
                picked
            );
        }
        other => panic!("Unexpected action, got {:?}", other),
    }
}

#[test]
fn endgame_split_bomb_banned_forces_pass() {
    let mut state = mk_playing_state(
        Seat::E,
        vec!["♠5", "♥5", "♦5", "♣5", "♠K", "♠A"],
        Some((Seat::N, vec!["♠6", "♥6"])),
    );
    fill_seats(
        &mut state,
        vec!["♦6", "♣6", "♦8", "♣8", "♦9", "♣9", "♦10", "♣10", "♦J"],
        vec!["♠8", "♥8", "♠9", "♥9", "♠10", "♥10", "♣10", "♠J", "♥J"],
        vec!["♠Q", "♥Q", "♦Q", "♣Q", "♥K", "♦K", "♣K", "♠A", "♥A"],
    );
    let picked = suggest_next_action(&state, Seat::E).unwrap();
    assert_eq!(picked, PlayerAction::Pass, "no legal alternative → must Pass");
}

#[test]
fn dual_wild_pair_follow_banned() {
    let top = mk_top(Seat::N, vec!["♦4", "♣4"]);
    let mut st = mk_playing_state(
        Seat::E,
        vec!["♥2", "♥2", "♠9", "♥9", "♠K", "♠A"],
        Some((Seat::N, vec!["♦4", "♣4"])),
    );
    fill_seats(
        &mut st,
        vec!["♦9", "♣9", "♦J", "♣J", "♦Q", "♣Q", "♦K", "♣K", "♦A"],
        vec!["♠3", "♥3", "♠5", "♥5", "♠6", "♥6", "♠7", "♥7", "♠8"],
        vec!["♥8", "♦8", "♣8", "♠10", "♥10", "♦10", "♣10", "♠J", "♥J"],
    );
    let p = pctx_of(&st, Seat::E);
    let wpair_cards = vec!["♥2".to_string(), "♥2".to_string()];
    let wpair = combo_of(vec!["♥2", "♥2"], vec!["♠9", "♥9"]);
    let s = score_follow(&wpair_cards, &wpair, &top, &p);
    assert!(s <= -50000.0, "双百搭压对子必须被禁止, got {s}");
}

#[test]
fn wild_conservation_detector() {
    let mut st = mk_playing_state(
        Seat::E,
        vec!["♠3", "♥3", "♦3", "♥2", "♦K"],
        None,
    );
    fill_seats(
        &mut st,
        vec!["♠4", "♥4", "♦4", "♣4", "♠5"],
        vec!["♥5", "♦5", "♣5", "♠6", "♥6"],
        vec!["♦6", "♣6", "♠7", "♥7", "♦7"],
    );
    let p = pctx_of(&st, Seat::E);
    assert!(wilds_could_form_bomb_or_sf(&p, &["♦K".to_string()]));
    assert!(!wilds_could_form_bomb_or_sf(
        &p,
        &["♦K".to_string(), "♠3".to_string()]
    ));
    let mut st2 = mk_playing_state(
        Seat::E,
        vec!["♠5", "♠6", "♠7", "♠8", "♥2", "♦K"],
        None,
    );
    fill_seats(
        &mut st2,
        vec!["♠4", "♥4", "♦4", "♣4", "♠9"],
        vec!["♥9", "♦9", "♣9", "♠10", "♥10"],
        vec!["♦10", "♣10", "♠J", "♥J", "♦J"],
    );
    let p2 = pctx_of(&st2, Seat::E);
    assert!(wilds_could_form_bomb_or_sf(&p2, &["♦K".to_string()]));
}

#[test]
fn opp_one_card_avoid_single_lead() {
    let mut st = mk_playing_state(Seat::E, vec!["♠5", "♥5", "♠K", "♥K"], None);
    fill_seats(
        &mut st,
        vec!["♠3"],
        vec!["♦4", "♣4", "♦6", "♣6", "♦7", "♣7", "♦8", "♣8", "♦9"],
        vec!["♣10", "♠J", "♥J", "♦J", "♣J", "♠Q", "♥Q", "♦Q", "♣Q"],
    );
    let picked = suggest_next_action(&st, Seat::E).unwrap();
    match picked {
        PlayerAction::Play { cards, .. } => {
            assert_eq!(cards.len(), 2, "对手剩1张时不得领单张, picked={cards:?}");
        }
        other => panic!("应领出, got {other:?}"),
    }
}

#[test]
fn teammate_one_card_feed_small_single() {
    let mut st = mk_playing_state(Seat::E, vec!["♠3", "♠K", "♥K", "♦K"], None);
    fill_seats(
        &mut st,
        vec!["♠4", "♥4", "♦4", "♣4", "♠5", "♥5", "♦5", "♣5", "♠6"],
        vec!["♥6", "♦6", "♣6", "♠7", "♥7", "♦7", "♣7", "♠8", "♥8"],
        vec!["♣9"],
    );
    let picked = suggest_next_action(&st, Seat::E).unwrap();
    match picked {
        PlayerAction::Play { cards, .. } => {
            assert_eq!(cards.len(), 1, "队友剩1张应送单张, picked={cards:?}");
            assert!(cards[0].ends_with('3'), "应送小单张 3, picked={cards:?}");
        }
        other => panic!("应领出, got {other:?}"),
    }
}

#[test]
fn dual_wild_penalty_matrix() {
    let top = mk_top(Seat::N, vec!["♦4", "♣4", "♥4", "♠9", "♦9"]);
    let fills = |st: &mut TableGameState| {
        fill_seats(
            st,
            vec!["♠3", "♥3", "♦3", "♣3", "♠4", "♥4", "♠6", "♥6", "♦6"],
            vec!["♣6", "♠7", "♥7", "♦7", "♣7", "♠10", "♥10", "♦10", "♣10"],
            vec!["♠J", "♥J", "♦J", "♣J", "♠Q", "♥Q", "♦Q", "♣Q", "♠A"],
        );
    };

    let mut end_state = mk_playing_state(Seat::E, vec!["♠5", "♦5", "♥2", "♥2", "♠9", "♠8"], None);
    fills(&mut end_state);
    let end_p = pctx_of(&end_state, Seat::E);
    let bomb4_cards = vec!["♠5".to_string(), "♦5".to_string(), "♥2".to_string(), "♥2".to_string()];
    let bomb4 = combo_of(vec!["♠5", "♦5", "♥2", "♥2"], vec!["♣5", "♥5"]);
    let sanctioned_end = score_follow(&bomb4_cards, &bomb4, &top, &end_p);

    let mut mid_state = mk_playing_state(
        Seat::E,
        vec!["♠5", "♦5", "♥2", "♥2", "♠9", "♠8", "♠7", "♠6"],
        None,
    );
    fills(&mut mid_state);
    let mid_p = pctx_of(&mid_state, Seat::E);
    let sanctioned_mid = score_follow(&bomb4_cards, &bomb4, &top, &mid_p);

    let mut lvl_state = mk_playing_state(Seat::E, vec!["♠2", "♦2", "♥2", "♥2", "♠9", "♠8"], None);
    fills(&mut lvl_state);
    let lvl_p = pctx_of(&lvl_state, Seat::E);
    let lvl_bomb_cards = vec!["♠2".to_string(), "♦2".to_string(), "♥2".to_string(), "♥2".to_string()];
    let lvl_bomb = combo_of(vec!["♠2", "♦2", "♥2", "♥2"], vec!["♣2", "♦2"]);
    let level_end = score_follow(&lvl_bomb_cards, &lvl_bomb, &top, &lvl_p);

    let mut bare_state = mk_playing_state(Seat::E, vec!["♥2", "♥2", "♠9", "♠8", "♥7", "♠6"], None);
    fills(&mut bare_state);
    let bare_p = pctx_of(&bare_state, Seat::E);
    let bare_cards = vec!["♥2".to_string(), "♥2".to_string()];
    let bare_pair = combo_of(vec!["♥2", "♥2"], vec!["♠3", "♥3"]);
    let bare_end = score_follow(&bare_cards, &bare_pair, &top, &bare_p);

    let mut bare_mid_state = mk_playing_state(
        Seat::E,
        vec!["♥2", "♥2", "♠9", "♠8", "♥7", "♠6", "♦5", "♣4"],
        None,
    );
    fills(&mut bare_mid_state);
    let bare_mid_p = pctx_of(&bare_mid_state, Seat::E);
    let bare_mid = score_follow(&bare_cards, &bare_pair, &top, &bare_mid_p);

    assert!(
        sanctioned_end - sanctioned_mid > 500.0,
        "endgame sanctioned dual-wild bomb (−10) must beat midgame (−600) by >500: {sanctioned_end} vs {sanctioned_mid}"
    );
    assert!(
        sanctioned_end > level_end,
        "non-level dual-wild bomb (−10) must beat level-touching dual-wild bomb: {sanctioned_end} vs {level_end}"
    );
    assert!(
        bare_end < sanctioned_end - 200.0,
        "bare dual wild (−60−200) must be worse than sanctioned: {bare_end} vs {sanctioned_end}"
    );
    assert!(
        bare_mid < bare_end - 400.0,
        "midgame bare dual wild (−600−200) must be far worse: {bare_mid} vs {bare_end}"
    );
}

#[test]
fn level_bomb_and_four_level_cards_are_banned() {
    let mut state = mk_playing_state(
        Seat::E,
        vec!["♠2", "♠2", "♦2", "♣2", "♠8", "♠9"],
        None,
    );
    fill_seats(
        &mut state,
        vec!["♠4", "♥4", "♦4", "♣4", "♠6", "♥6", "♦6", "♣6", "♠7"],
        vec!["♥7", "♦7", "♣7", "♠8", "♥8", "♦8", "♣8", "♠10", "♥10"],
        vec!["♦10", "♣10", "♠J", "♥J", "♦J", "♣J", "♠Q", "♥Q", "♦Q"],
    );
    let p = pctx_of(&state, Seat::E);
    let top = mk_top(Seat::N, vec!["♦4", "♣4", "♥4", "♠9", "♦9"]);
    let lvl_bomb_cards = vec!["♠2".to_string(), "♠2".to_string(), "♦2".to_string(), "♣2".to_string()];
    let lvl_bomb = CombinationParser::parse(&lvl_bomb_cards, None, ctx()).unwrap();
    let s = score_follow(&lvl_bomb_cards, &lvl_bomb, &top, &p);
    assert!(s < -50000.0, "level bomb (4 level cards) must be banned: {s}");
}

#[test]
fn fullhouse_with_level_pair_banned() {
    let mut state = mk_playing_state(
        Seat::E,
        vec!["♠5", "♥5", "♦5", "♠2", "♦2", "♠8"],
        None,
    );
    fill_seats(
        &mut state,
        vec!["♠4", "♥4", "♦4", "♣4", "♣5", "♥5", "♦5", "♣5", "♠6"],
        vec!["♥6", "♦6", "♣6", "♠7", "♥7", "♦7", "♣7", "♠10", "♥10"],
        vec!["♦10", "♣10", "♠J", "♥J", "♦J", "♣J", "♠Q", "♥Q", "♦Q"],
    );
    let p = pctx_of(&state, Seat::E);
    let top = mk_top(Seat::N, vec!["♦4", "♣4", "♥4", "♠9", "♦9"]);
    let fh_cards = vec![
        "♠5".to_string(),
        "♥5".to_string(),
        "♦5".to_string(),
        "♠2".to_string(),
        "♦2".to_string(),
    ];
    let fh = CombinationParser::parse(&fh_cards, None, ctx()).unwrap();
    let s = score_follow(&fh_cards, &fh, &top, &p);
    assert!(s < -50000.0, "full house carrying a level pair must be banned: {s}");
}

#[test]
fn last_card_forced_play_when_beatable() {
    let state = mk_playing_state(Seat::E, vec!["♠9"], Some((Seat::N, vec!["♠3"])));
    let picked = suggest_next_action(&state, Seat::E).unwrap();
    assert_eq!(
        picked,
        PlayerAction::Play {
            cards: vec!["♠9".into()],
            wild_targets: None,
        },
        "last card must be forced out when it beats the top"
    );
}

#[test]
fn partner_big_pair_cannot_be_overridden() {
    let state = mk_playing_state(
        Seat::E,
        vec!["♠A", "♥A", "♠5", "♠6"],
        Some((Seat::W, vec!["♠K", "♥K"])),
    );
    let picked = suggest_next_action(&state, Seat::E).unwrap();
    assert_eq!(picked, PlayerAction::Pass, "never override teammate's big pair");
}

#[test]
fn enemy_big_pair_can_be_taken() {
    let mut state = mk_playing_state(
        Seat::E,
        vec!["♠A", "♥A", "♠5", "♠6"],
        Some((Seat::N, vec!["♠K", "♥K"])),
    );
    fill_seats(
        &mut state,
        vec!["♦K", "♣K", "♦A", "♣A", "♦5", "♣5", "♦6", "♣6", "♦7"],
        vec!["♠7", "♥7", "♦7", "♣7", "♠8", "♥8", "♦8", "♣8", "♠9"],
        vec!["♥9", "♦9", "♣9", "♠10", "♥10", "♦10", "♣10", "♠J", "♥J"],
    );
    let picked = suggest_next_action(&state, Seat::E).unwrap();
    match &picked {
        PlayerAction::Play { cards, .. } => {
            assert_eq!(
                cards.len(),
                2,
                "enemy big pair may be overtaken with AA, got {:?}",
                picked
            );
        }
        other => panic!("Expected Play (pair AA), got {:?}", other),
    }
}

#[test]
fn midgame_follow_small_pair_prefers_pass_over_bomb() {
    let mut state = mk_playing_state(
        Seat::E,
        vec!["♠3", "♥3", "♦3", "♣3", "♠8", "♠9", "♠10", "♠J", "♠Q", "♠K", "♠A"],
        Some((Seat::N, vec!["♠4", "♥4"])),
    );
    fill_seats(
        &mut state,
        vec!["♦4", "♣4", "♦5", "♥5", "♦6", "♣6", "♦7", "♣7", "♦8"],
        vec!["♠5", "♥6", "♦7", "♣8", "♠9", "♥10", "♦J", "♣Q", "♦K"],
        vec!["♥7", "♦9", "♣10", "♠J", "♥Q", "♦K", "♣A", "♥8", "♠6"],
    );
    let picked = suggest_next_action(&state, Seat::E).unwrap();
    assert_eq!(
        picked,
        PlayerAction::Pass,
        "mid-game must pass instead of bombing a small pair"
    );
}

#[test]
fn opponent_sprinting_prefers_bomb_intercept() {
    let mut state = mk_playing_state(
        Seat::E,
        vec!["♠3", "♥3", "♦3", "♣3", "♠5"],
        Some((Seat::N, vec!["♠4", "♥4", "♦4"])),
    );
    fill_seats(
        &mut state,
        vec!["♣4", "♦5", "♣5", "♥5", "♦6", "♣6", "♥6", "♦7", "♣7"],
        vec!["♠6", "♥7"],
        vec!["♥8", "♦9", "♣10", "♠J", "♥Q", "♦K", "♣A", "♥9", "♠8"],
    );
    let picked = suggest_next_action(&state, Seat::E).unwrap();
    match &picked {
        PlayerAction::Play { cards, .. } => {
            assert_eq!(
                cards.len(), 4,
                "opponent sprinting exempts the bomb over a triple, got {:?}",
                picked
            );
        }
        other => panic!("Expected Play (bomb intercept), got {:?}", other),
    }
}

#[test]
fn last_bomb_used_when_opponent_sprinting() {
    let mut state = mk_playing_state(
        Seat::E,
        vec!["♠3", "♥3", "♦3", "♣3", "♠8", "♠9", "♠10", "♠J", "♠Q", "♠K", "♠A"],
        Some((Seat::N, vec!["♠4", "♥4", "♦4"])),
    );
    fill_seats(
        &mut state,
        vec!["♣4", "♦5", "♣5", "♥5", "♦6", "♣6", "♥6", "♦7", "♣7"],
        vec!["♠6", "♥7"],
        vec!["♥8", "♦9", "♣10", "♥J", "♥Q", "♦K", "♣A", "♥9", "♣9"],
    );
    let picked = suggest_next_action(&state, Seat::E).unwrap();
    match &picked {
        PlayerAction::Play { cards, wild_targets } => {
            let combo = CombinationParser::parse(cards, wild_targets.as_deref(), ctx())
                .expect("intercept candidate must parse");
            assert!(
                matches!(combo.class(), CombinationClass::Bomb),
                "opponent sprinting exempts the last bomb for intercept, got {:?}",
                picked
            );
        }
        _ => panic!("Expected Play (bomb intercept), got {:?}", picked),
    }
}

#[test]
fn two_bombs_allow_using_one_vs_sprinting() {
    let mut state = mk_playing_state(
        Seat::E,
        vec!["♠3", "♥3", "♦3", "♣3", "♠5", "♥5", "♦5", "♣5", "♠8", "♠9", "♠10"],
        Some((Seat::N, vec!["♠4", "♥4", "♦4"])),
    );
    fill_seats(
        &mut state,
        vec!["♣4", "♦6", "♣6", "♥6", "♦7", "♣7", "♥7", "♦8", "♣8"],
        vec!["♠6", "♥9"],
        vec!["♥8", "♦9", "♣10", "♥J", "♥Q", "♦K", "♣A", "♣9", "♦10"],
    );
    let picked = suggest_next_action(&state, Seat::E).unwrap();
    match &picked {
        PlayerAction::Play { cards, wild_targets } => {
            let combo = CombinationParser::parse(cards, wild_targets.as_deref(), ctx())
                .expect("intercept candidate must parse");
            assert!(
                matches!(combo.class(), CombinationClass::Bomb),
                "with 2 bombs one may be spent vs sprinting opponents, got {:?}",
                picked
            );
        }
        _ => panic!("Expected Play (bomb intercept), got {:?}", picked),
    }
}

#[test]
fn midgame_still_allows_bomb_on_big_top() {
    let mut state = mk_playing_state(
        Seat::E,
        vec![
            "♠3", "♥3", "♦3", "♣3", "♠5", "♥5", "♦5", "♣5", "♠6", "♥6", "♦6", "♣6", "♠8",
        ],
        Some((Seat::N, vec!["♠K", "♥K", "♦K", "♠9", "♦9"])),
    );
    fill_seats(
        &mut state,
        vec!["♣4", "♥4", "♦4", "♠4", "♣7", "♥7", "♦7", "♠7", "♣8"],
        vec!["♠10", "♥10", "♦10", "♣10", "♠J", "♥J", "♦J", "♣J", "♠Q"],
        vec!["♣Q", "♥Q", "♦Q", "♠K", "♣K", "♦K", "♠A", "♥A", "♦A"],
    );
    let picked = suggest_next_action(&state, Seat::E).unwrap();
    match &picked {
        PlayerAction::Play { cards, .. } => {
            assert_eq!(
                cards.len(), 4,
                "with 3 bombs a mid-game bomb over a full house stays allowed"
            );
        }
        _ => panic!("Expected Play (bomb on big top), got {:?}", picked),
    }
}

#[test]
fn counter_bomb_blocked_by_post_play_recount_shared_wild() {
    let mut state = mk_playing_state(
        Seat::E,
        vec!["♠5", "♥5", "♦5", "♥2", "♠6", "♠7", "♠8", "♠9"],
        Some((Seat::N, vec!["♣4", "♦4", "♥4", "♠4"])),
    );
    fill_seats(
        &mut state,
        vec!["♣5", "♦5", "♣6", "♥6", "♦6", "♣7", "♥7", "♦7", "♣8"],
        vec!["♠10", "♥10", "♦10", "♣10", "♠J", "♥J", "♦J", "♣J", "♠Q"],
        vec!["♣Q", "♥Q", "♦Q", "♠K", "♣K", "♦K", "♠A", "♥A", "♦A"],
    );
    let picked = suggest_next_action(&state, Seat::E).unwrap();
    assert_eq!(
        picked,
        PlayerAction::Pass,
        "反炸会把最后一颗（潜在）炸耗尽（共用百搭），中盘必须 Pass 保炸"
    );
}

#[test]
fn two_bombs_counter_allowed_when_post_play_bombs_remain() {
    let mut state = mk_playing_state(
        Seat::E,
        vec!["♠5", "♥5", "♦5", "♣5", "♠6", "♥6", "♦6", "♥2"],
        Some((Seat::N, vec!["♣4", "♦4", "♥4", "♠4"])),
    );
    fill_seats(
        &mut state,
        vec!["♣7", "♥7", "♦7", "♣8", "♥8", "♦8", "♣9", "♥9", "♦9"],
        vec!["♠10", "♥10", "♦10", "♣10", "♠J", "♥J", "♦J", "♣J", "♠Q"],
        vec!["♣Q", "♥Q", "♦Q", "♠K", "♣K", "♦K", "♠A", "♥A", "♦A"],
    );
    let picked = suggest_next_action(&state, Seat::E).unwrap();
    match &picked {
        PlayerAction::Play { .. } => {}
        other => panic!("两颗独立炸中盘反炸（打完剩 1 颗）应允许，got {:?}", other),
    }
}

#[test]
fn only_plain_bomb_is_kept_beside_a_triple_and_a_wild_card() {
    let hand = vec!["♠5", "♥5", "♦5", "♣5", "♠6", "♥6", "♦6", "♥2"];
    for top in [vec!["♠K", "♥K", "♦K", "♠9", "♦9"], vec!["♠9", "♥10", "♦J", "♠Q", "♥K"]] {
        let mut state = mk_playing_state(Seat::E, hand.clone(), Some((Seat::N, top)));
        fill_seats(
            &mut state,
            vec!["♣7", "♥7", "♦7", "♣8", "♥8", "♦8", "♣9", "♥9", "♦9"],
            vec!["♠10", "♥10", "♦10", "♣10", "♠J", "♥J", "♦J", "♣J", "♠Q"],
            vec!["♣Q", "♥Q", "♦Q", "♠K", "♣K", "♦K", "♠A", "♥A", "♦A"],
        );
        let picked = suggest_next_action(&state, Seat::E).unwrap();
        if let PlayerAction::Play { cards, .. } = &picked {
            assert!(cards.iter().any(|c| c == "♥2"), "the plain bomb went: {picked:?}");
        }
    }
    let mut state = mk_playing_state(Seat::E, hand, None);
    fill_seats(
        &mut state,
        vec!["♣7", "♥7", "♦7", "♣8", "♥8", "♦8", "♣9", "♥9", "♦9"],
        vec!["♠10", "♥10", "♦10", "♣10", "♠J", "♥J", "♦J", "♣J", "♠Q"],
        vec!["♣Q", "♥Q", "♦Q", "♠K", "♣K", "♦K", "♠A", "♥A", "♦A"],
    );
    match suggest_next_action(&state, Seat::E).unwrap() {
        PlayerAction::Play { cards, .. } => assert!(!cards.contains(&"♣5".to_string())),
        other => panic!("{other:?}"),
    }
}

#[test]
fn small_full_house_never_bombed_midgame() {
    let mut state = mk_playing_state(
        Seat::E,
        vec![
            "♠3", "♥3", "♦3", "♣3", "♠5", "♥5", "♦5", "♣5", "♠6", "♥6", "♦6", "♣6", "♠8",
        ],
        Some((Seat::N, vec!["♥7", "♠7", "♦7", "♣8", "♥8"])),
    );
    fill_seats(
        &mut state,
        vec!["♣4", "♥4", "♦4", "♠4", "♣7", "♠9", "♥9", "♦9", "♣9"],
        vec!["♠10", "♥10", "♦10", "♣10", "♠J", "♥J", "♦J", "♣J", "♠Q"],
        vec!["♣Q", "♦Q", "♥Q", "♠K", "♥K", "♦K", "♣K", "♠A", "♥A"],
    );
    let picked = suggest_next_action(&state, Seat::E).unwrap();
    assert_eq!(
        picked,
        PlayerAction::Pass,
        "12 以下的三带二中盘不许用炸（房规 A），got {:?}",
        picked
    );
}

#[test]
fn wildfree_bomb_beats_ordinary_top_without_burning_wild() {
    let mut state = mk_playing_state(
        Seat::E,
        vec!["♠8", "♥8", "♦8", "♣8", "♠5", "♥2"],
        Some((Seat::N, vec!["♠7", "♥7", "♦7"])),
    );
    fill_seats(
        &mut state,
        vec!["♣4", "♥4", "♦4", "♠4", "♣6", "♥6", "♦6", "♣6", "♠3"],
        vec!["♥7", "♦7", "♣7", "♠10", "♥10", "♦10", "♣10", "♠3", "♥3"],
        vec!["♦3", "♣3", "♠J", "♥J", "♦J", "♣J", "♠Q", "♥Q", "♦Q"],
    );
    let picked = suggest_next_action(&state, Seat::E).unwrap();
    match &picked {
        PlayerAction::Play { cards, .. } => {
            assert_eq!(
                cards.len(),
                4,
                "必须出 4 张天然炸 8888，got {:?}",
                picked
            );
            assert!(
                !cards.contains(&"♥2".to_string()),
                "有免百搭炸可压 777 时不得烧百搭升档（房规B1扩面），got {:?}",
                picked
            );
        }
        other => panic!("Expected Play (wild-free bomb), got {:?}", other),
    }
}

#[test]
fn counter_bomb_prefers_wildfree_candidate() {
    let mut state = mk_playing_state(
        Seat::E,
        vec![
            "♠A", "♥A", "♦A", "♣A", "♠5", "♥5", "♦5", "♣5", "♥2", "♠9", "♥9", "♦9",
        ],
        Some((Seat::N, vec!["♠K", "♥K", "♦K", "♣K"])),
    );
    fill_seats(
        &mut state,
        vec!["♣4", "♥4", "♦4", "♠4", "♣6", "♥6", "♦6", "♣6", "♠7"],
        vec!["♥7", "♦7", "♣7", "♠8", "♥8", "♦8", "♣8", "♠10", "♥10"],
        vec!["♣10", "♦10", "♠J", "♥J", "♦J", "♣J", "♠Q", "♥Q", "♦Q"],
    );
    let picked = suggest_next_action(&state, Seat::E).unwrap();
    match &picked {
        PlayerAction::Play { cards, .. } => {
            let mut got: Vec<String> = cards.clone();
            got.sort();
            assert_eq!(
                got,
                vec!["♠A", "♣A", "♥A", "♦A"],
                "反炸必须选免百搭的 4A，不许烧百搭（房规 B1），got {:?}",
                picked
            );
        }
        other => panic!("Expected Play (4A counter), got {:?}", other),
    }
}

#[test]
fn counter_bomb_prefers_wildfree_even_when_sprinting() {
    let mut state = mk_playing_state(
        Seat::E,
        vec![
            "♠A", "♥A", "♦A", "♣A", "♠5", "♥5", "♦5", "♣5", "♥2", "♠9", "♥9", "♦9",
        ],
        Some((Seat::N, vec!["♠K", "♥K", "♦K", "♣K"])),
    );
    fill_seats(
        &mut state,
        vec!["♣4", "♥4", "♦4", "♠4", "♣6", "♥6", "♦6", "♣6", "♠7"],
        vec!["♥7", "♦7"],
        vec!["♣10", "♦10", "♠J", "♥J", "♦J"],
    );
    let picked = suggest_next_action(&state, Seat::E).unwrap();
    match &picked {
        PlayerAction::Play { cards, .. } => {
            assert_eq!(
                cards.len(),
                4,
                "B1收紧：免百搭 4A 可压 KKKK 时不得烧 ♥2 升档，got {:?}",
                picked
            );
            assert!(
                !cards.contains(&"♥2".to_string()),
                "不得烧百搭，got {:?}",
                picked
            );
        }
        other => panic!("Expected Play (wild-free 4A counter), got {:?}", other),
    }
}

#[test]
fn counter_bomb_only_wild_option_still_plays_when_bombs_remain() {
    let mut state = mk_playing_state(
        Seat::E,
        vec!["♠5", "♥5", "♦5", "♣5", "♥2", "♠3", "♥3", "♦3", "♣3", "♠9"],
        Some((Seat::N, vec!["♠K", "♥K", "♦K", "♣K"])),
    );
    fill_seats(
        &mut state,
        vec!["♣4", "♥4", "♦4", "♠4", "♣6", "♥6", "♦6", "♣6", "♠7"],
        vec!["♥7", "♦7", "♣7", "♠8", "♥8", "♦8", "♣8", "♠10", "♥10"],
        vec!["♣10", "♦10", "♠J", "♥J", "♦J", "♣J", "♠Q", "♥Q", "♦Q"],
    );
    let picked = suggest_next_action(&state, Seat::E).unwrap();
    match &picked {
        PlayerAction::Play { cards, wild_targets } => {
            assert!(
                cards.len() == 5,
                "唯一反炸手段（含百搭五张炸）在打完仍有炸时应照常打出，got {:?}",
                picked
            );
            assert!(
                wild_targets.is_some() || cards.iter().any(|c| c == "♥2"),
                "应打出含百搭的炸，got {:?}",
                picked
            );
        }
        other => panic!("Expected Play (only wild counter), got {:?}", other),
    }
}

#[test]
fn endgame_prefers_natural_bomb_over_wild_upgrade() {
    let mut state = mk_playing_state(
        Seat::E,
        vec!["♠5", "♥5", "♦5", "♣5", "♥2", "♠K"],
        Some((Seat::N, vec!["♠9", "♥9", "♦9"])),
    );
    fill_seats(
        &mut state,
        vec!["♣9", "♦9", "♣4", "♦4", "♠6", "♥6", "♦6", "♣6", "♠7"],
        vec!["♥7", "♦7", "♣7", "♠8", "♥8", "♦8", "♣8", "♠10", "♥10"],
        vec!["♦10", "♣10", "♠J", "♥J", "♦J", "♣J", "♠Q", "♥Q", "♦Q"],
    );
    let picked = suggest_next_action(&state, Seat::E).unwrap();
    match &picked {
        PlayerAction::Play { cards, wild_targets } => {
            assert!(
                cards.len() == 4 && !cards.contains(&"♥2".to_string()),
                "有天然5555可压999时不得烧百搭升档5炸（房规B1扩面），got {:?}",
                picked
            );
            let _ = wild_targets;
        }
        other => panic!("Expected Play (natural 5555), got {:?}", other),
    }
}

#[test]
fn endgame_follow_single_removal_reward_beats_wild_bomb() {
    let mut state = mk_playing_state(
        Seat::E,
        vec!["♠5", "♥5", "♦5", "♠8", "♠K", "♥2"],
        Some((Seat::N, vec!["♦4", "♣4", "♥4", "♠9", "♦9"])),
    );
    fill_seats(
        &mut state,
        vec!["♠3", "♥3", "♦3", "♣3", "♠4"],
        vec!["♣6", "♠7", "♥7", "♦7", "♣7", "♠10", "♥10", "♦10", "♣10"],
        vec!["♠J", "♥J", "♦J", "♣J", "♠Q", "♥Q", "♦Q", "♣Q", "♠A"],
    );
    let picked = suggest_next_action(&state, Seat::E).unwrap();
    match &picked {
        PlayerAction::Play { cards, wild_targets } => {
            let combo = CombinationParser::parse(cards, wild_targets.as_deref(), ctx())
                .expect("candidate must parse");
            assert!(
                matches!(combo.kind, CombinationKind::Ordinary(OrdinaryKind::FullHouse)),
                "endgame single-removal reward (+400/+300) must favor the full house, got {:?}",
                picked
            );
        }
        other => panic!("Expected Play (full house), got {:?}", other),
    }
}

#[test]
fn endgame_follow_prefers_small_single_removal_over_level_card() {
    let state = mk_playing_state(Seat::E, vec!["♠2", "♠7"], Some((Seat::N, vec!["♠6"])));
    let picked = suggest_next_action(&state, Seat::E).unwrap();
    assert_eq!(
        picked,
        PlayerAction::Play {
            cards: vec!["♠7".into()],
            wild_targets: None,
        }
    );
}

#[test]
fn leading_level_single_banned_when_hand_large() {
    let state = mk_playing_state(
        Seat::E,
        vec!["♥2", "♠2", "♦2", "♣2", "♠3", "♠4", "♠5", "♠6"],
        None,
    );
    let picked = suggest_next_action(&state, Seat::E).unwrap();
    match &picked {
        PlayerAction::Play { cards, wild_targets } => {
            let combo = CombinationParser::parse(cards, wild_targets.as_deref(), ctx())
                .expect("candidate must parse");
            let is_level_single = matches!(
                combo.kind,
                CombinationKind::Ordinary(OrdinaryKind::Single)
            ) && cards.iter().any(|c| c.ends_with('2'));
            assert!(
                !is_level_single,
                "must not lead a level-card single with a large hand, got {:?}",
                picked
            );
        }
        other => panic!("Expected Play, got {:?}", other),
    }
}

#[test]
fn wild_card_is_led_where_nothing_else_is_a_card() {
    let state = mk_playing_state(Seat::E, vec!["♥2", "?"], None);
    assert_eq!(
        suggest_next_action(&state, Seat::E),
        Ok(PlayerAction::Play { cards: vec!["♥2".to_string()], wild_targets: None })
    );
    let state = mk_playing_state(Seat::E, vec!["?", "♥2"], None);
    assert_eq!(
        suggest_next_action(&state, Seat::E),
        Err("suggest: no lead play available".to_string())
    );
    let state = mk_playing_state(Seat::E, vec!["♥2", "?"], Some((Seat::N, vec!["♠3"])));
    assert_eq!(suggest_next_action(&state, Seat::E), Ok(PlayerAction::Pass));
}
