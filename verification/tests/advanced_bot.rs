//! The advanced bot: what it has seen, what it thinks likely, what it does.

use clawguandan::advanced_policy::{AdvancedBotPlugin, AdvancedPlayPolicy, BotDecision};
use clawguandan::cards::{parse_card_symbol, Card, Rank};
use clawguandan::domain::Seat;
use clawguandan::game_types::PlayerAction;
use clawguandan::hand_tracker::HandTracker;
use clawguandan::params::AdvancedBotParams;
use clawguandan::prob_reasoner::ProbabilisticReasoner;

fn cards(list: &[&str]) -> Vec<Card> {
    list.iter().map(|s| parse_card_symbol(s).unwrap()).collect()
}

#[test]
fn a_tracker_forgets_what_it_has_seen_only_on_reset() {
    let mut tracker = HandTracker::new(Seat::S);
    assert!(!tracker.is_initialized());
    assert_eq!(tracker.get_remaining_count(Seat::E), 25);
    tracker.init(&cards(&["♠3", "♥4"]), Some(Rank::Two));
    assert!(tracker.is_initialized());
    assert_eq!(tracker.get_remaining_pool_size(), 52);
    tracker.update_play(Seat::E, &cards(&["♠9", "♥9"]));
    assert_eq!(tracker.get_remaining_pool_size(), 50);
    assert_eq!(tracker.get_remaining_count(Seat::E), 23);
    assert_eq!(tracker.count_in_pool(Rank::Nine), 2);
    assert!(tracker.has_recorded(Seat::E, &cards(&["♠9", "♥9"])));
    assert!(!tracker.has_recorded(Seat::W, &cards(&["♠9", "♥9"])));
    tracker.update_play(Seat::E, &cards(&["♠9"]));
    assert_eq!(tracker.get_remaining_pool_size(), 50);
    tracker.reset();
    assert!(!tracker.is_initialized());
    assert_eq!(tracker.get_remaining_pool_size(), 0);
}

#[test]
fn unseen_cards_are_never_known() {
    let mut tracker = HandTracker::new(Seat::S);
    tracker.init(&cards(&["♠3"]), None);
    tracker.update_play(Seat::N, &cards(&["♠4", "♠4", "♣A"]));
    for card in &tracker.remaining_card_pool {
        assert!(!tracker.known_cards.contains(card));
    }
}

#[test]
fn chances_follow_the_unseen_cards() {
    let mut tracker = HandTracker::new(Seat::S);
    tracker.init(&cards(&["♠3", "♥3"]), None);
    let c = tracker.get_prob_rank_in_hand(Seat::E, Rank::Three);
    assert_eq!((c.num, c.den), (2 * 25, 52 * 52));
    assert_eq!(tracker.get_prob_rank_in_hand(Seat::S, Rank::Three).num, 0);
    let bomb = tracker.get_prob_has_bomb(Seat::E);
    assert_eq!((bomb.num, bomb.den), (400, 400));
    tracker.update_seat_count(Seat::E, 3);
    assert_eq!(tracker.get_prob_has_bomb(Seat::E).num, 0);
    assert_eq!(tracker.get_team_remaining(Seat::E), 28);
    assert_eq!(tracker.get_enemy_remaining(Seat::E), 50);
    assert!(tracker.is_endgame(3));
    let reasoner = ProbabilisticReasoner::new(tracker);
    assert!(reasoner.is_any_enemy_sprinting(Seat::S, 3));
    assert!(!reasoner.is_partner_sprinting(Seat::S, 3));
    let win = reasoner.calculate_game_win_prob(Seat::S);
    assert!(win.num < win.den);
}

#[test]
fn reasoning_has_exact_values() {
    let mut tracker = HandTracker::new(Seat::S);
    tracker.init(&cards(&["♠3", "♥3"]), None);
    tracker.update_pass(Seat::E);
    assert_eq!(tracker.get_remaining_count(Seat::E), 25);
    let follow = tracker.get_prob_can_follow(Seat::E, Rank::A);
    assert_eq!((follow.num, follow.den), (4 + 4 + 2, 52));
    let reasoner = ProbabilisticReasoner::new(tracker);
    let others = reasoner.calculate_opponent_has_rank(Rank::Three);
    assert_eq!((others.num, others.den), (2 * 75, 52 * 52));
    assert_eq!(reasoner.calculate_opponent_bomb_prob(Seat::S).num, 400);
    let needs = reasoner.calculate_partner_needs(Seat::S);
    assert_eq!(needs.len(), 13);
    assert_eq!(needs[0].rank, Rank::Three);
    assert_eq!(needs[0].score.num, (2704 - 50) * (2704 - 150));
    assert_eq!(needs[0].score.den, 2704 * 2704);
    assert_eq!(needs[1].rank, Rank::Four);
    assert_eq!(needs[1].score.num, (2704 - 100) * (2704 - 300));
    assert_eq!(needs[12].rank, Rank::Two);
    let win = reasoner.calculate_win_prob(Seat::S, &cards(&["♠K", "♠A"]));
    assert_eq!(win.num * 676_000, win.den * (75 * 42 * 42 * 2 + 25 * 52 * 52));
    assert_eq!(reasoner.calculate_win_prob(Seat::S, &[]).num, 0);
    assert!(reasoner.get_strongest_card_prob(Seat::E).is_none());
}

#[test]
fn the_last_unseen_card_is_certain() {
    let mut hand = Vec::new();
    for suit in ["♠", "♥", "♦", "♣"] {
        for rank in ["2", "3", "4", "5", "6", "7", "8", "9", "10", "J", "Q", "K", "A"] {
            hand.push(parse_card_symbol(&format!("{suit}{rank}")).unwrap());
        }
    }
    let mut tracker = HandTracker::new(Seat::S);
    tracker.init(&hand, None);
    let mut reasoner = ProbabilisticReasoner::new(tracker);
    reasoner.tracker_mut().update_play(Seat::W, &cards(&["🃏b"]));
    assert_eq!(reasoner.tracker().get_remaining_count(Seat::W), 24);
    let (rank, chance) = reasoner.get_strongest_card_prob(Seat::E).unwrap();
    assert_eq!(rank, Rank::RedJoker);
    assert_eq!((chance.num, chance.den), (1, 1));
    reasoner.tracker_mut().set_my_seat(Seat::E);
    assert!(reasoner.tracker().is_my_seat(Seat::E));
    assert!(reasoner.get_strongest_card_prob(Seat::E).is_none());
}

fn state(top_seat: &str, top_cards: &str, kind: &str, hand: &str, left: [u32; 4]) -> String {
    let expect = r#""expect":{"legalActions":["pass","play"]}"#;
    let private = format!(
        r#""private":{{"seat":"S","teammateSeat":"N","handCards":{hand}}}"#
    );
    let top = format!(r#"{{"seat":"{top_seat}","cards":{top_cards},"kind":"{kind}"}}"#);
    let table = format!(r#""hand":{{"handLevel":"2","topPlay":{top}}}"#);
    let count = |n: u32| format!(r#"{{"remainingCount":{n}}}"#);
    let seats = format!(
        r#""seats":{{"E":{},"S":{},"W":{},"N":{}}}"#,
        count(left[0]),
        count(left[1]),
        count(left[2]),
        count(left[3])
    );
    format!("{{{expect},{private},{table},{seats}}}")
}

fn bot() -> AdvancedPlayPolicy {
    AdvancedPlayPolicy::new(AdvancedBotParams::default_balanced())
}

fn passes(decision: BotDecision) -> bool {
    match decision {
        BotDecision::Action(PlayerAction::Pass) => true,
        BotDecision::UseSuggest => false,
        other => panic!("{other:?}"),
    }
}

#[test]
fn without_a_choice_nothing_is_weighed() {
    let mut policy = bot();
    assert!(passes(policy.decide_play(r#"{"expect":{"legalActions":["pass"]}}"#)));
    assert!(!passes(policy.decide_play(r#"{"expect":{"legalActions":["play"]}}"#)));
    assert!(!policy.tracker.is_initialized());
}

#[test]
fn a_partner_is_never_beaten_in_big_plays() {
    let hand = r#"["♠3","♠4","♠5"]"#;
    let left = [20, 3, 20, 20];
    for (top, kind) in [
        (r#"["♠9","♥9","♦9","♣9"]"#, "BombSameRank"),
        (r#"["♠2"]"#, "Single"),
        (r#"["🃏R"]"#, "Single"),
        (r#"["♥2","🃏b"]"#, "Single"),
        (r#"["♠Q"]"#, "Single"),
    ] {
        assert!(passes(bot().decide_play(&state("N", top, kind, hand, left))), "{top}");
    }
}

#[test]
fn the_last_card_is_always_played() {
    let s = state("N", r#"["♠Q"]"#, "Single", r#"["♠K"]"#, [20, 1, 20, 20]);
    assert!(!passes(bot().decide_play(&s)));
}

#[test]
fn a_sprinting_enemy_is_answered() {
    let s = state("E", r#"["♠7"]"#, "Single", r#"["♠9","♠10","♠J"]"#, [2, 3, 20, 20]);
    let mut policy = bot();
    assert!(!passes(policy.decide_play(&s)));
    assert_eq!(policy.tracker.get_remaining_count(Seat::N), 20);
    assert_eq!(policy.tracker.get_remaining_count(Seat::E), 1);
    assert_eq!(policy.tracker.get_remaining_pool_size(), 50);
    assert!(!passes(policy.decide_play(&s)));
    assert_eq!(policy.tracker.get_remaining_pool_size(), 50);
}

#[test]
fn a_plugin_without_stored_weights_is_balanced() {
    let plugin = AdvancedBotPlugin::from_stored(None);
    assert_eq!(plugin.play.params, AdvancedBotParams::default_balanced());
    assert_eq!(plugin.plugin_id(), "advanced-bot");
    let house = AdvancedBotParams::house_params();
    assert_eq!(AdvancedBotPlugin::with_params(house).play.params, house);
}

#[test]
fn a_weighing_shows_its_points_and_reasons() {
    let s = state("E", r#"["♠7"]"#, "Single", r#"["♠9","♠10","♠J"]"#, [2, 3, 20, 20]);
    let mut policy = bot();
    assert!(!passes(policy.decide_play(&s)));
    let w = policy.explain_play(&s).unwrap();
    let p = policy.params;
    assert_eq!(
        w.play_score,
        200_000_000 + p.bomb_aggression_when_enemy_low + p.endgame_clear_hand_bias
    );
    assert!(w.reasons.contains(&"play: enemy sprinting, need to intercept".to_string()));
    assert!(w.reasons.contains(&"play: endgame, need to clear".to_string()));
    let bomb = w.reasons.contains(&"pass: opponent likely has bomb".to_string());
    assert_eq!(w.pass_score, if bomb { 2 * p.bomb_conserve_bias } else { 0 });
    assert!(w.pass_score <= w.play_score);
    assert!(policy.explain_play(r#"{"expect":{"legalActions":["pass"]}}"#).is_none());
    let partner = state("N", r#"["♠Q"]"#, "Single", r#"["♠3","♠4"]"#, [20, 2, 20, 20]);
    assert!(policy.explain_play(&partner).is_none());
}
