//! What the rule bot reads off a table and how it decides.

use clawguandan::rule_features::{
    count_bombs_in_hand, count_medium_singles, count_small_pair_ranks, count_small_triple_ranks,
    count_straight_flush_approx, extract_rule_features, is_small_card_symbol, is_wildcard_symbol,
};
use clawguandan::rule_params::RuleBotParams;
use clawguandan::rule_scoring::{choose_play_candidate, PlayCandidate};

fn cards(list: &[&str]) -> Vec<String> {
    list.iter().map(|s| s.to_string()).collect()
}

#[test]
fn small_card_range_is_two_to_ten() {
    assert!(is_small_card_symbol("♠2", Some("A")));
    assert!(is_small_card_symbol("♥10", Some("A")));
    assert!(!is_small_card_symbol("♣J", Some("A")));
    assert!(!is_small_card_symbol("🃏R", Some("A")));
}

#[test]
fn small_card_excludes_current_hand_level() {
    assert!(!is_small_card_symbol("♠2", Some("2")));
    assert!(!is_small_card_symbol("♥10", Some("10")));
    assert!(is_small_card_symbol("♦9", Some("10")));
}

#[test]
fn medium_singles_count_excludes_level_and_high_cards() {
    let hand = cards(&["♠3", "♥5", "♣J", "♦Q", "♠K", "♥A", "♠2"]);
    assert_eq!(count_medium_singles(&hand, Some("2")), 4);
}

#[test]
fn small_pair_ranks_count() {
    let hand = cards(&["♠3", "♥3", "♠5", "♥5", "♣5", "♠7", "♠9", "♥9", "♠J", "♠K"]);
    assert_eq!(count_small_pair_ranks(&hand, Some("2")), 3);
}

#[test]
fn small_triple_ranks_count() {
    let hand = cards(&["♠3", "♥3", "♦3", "♠5", "♥5", "♠7", "♠9", "♥9", "♦9", "♠K"]);
    assert_eq!(count_small_triple_ranks(&hand, Some("2")), 2);
}

#[test]
fn wild_card_completes_a_triple() {
    assert!(is_wildcard_symbol(" ♥2 ", Some("2")));
    assert!(!is_wildcard_symbol("♠2", Some("2")));
    assert!(!is_wildcard_symbol("♥2", None));
    let hand = cards(&["♠5", "♥5", "♦5", "♥2", "♠9", "♥9", "♦9"]);
    assert_eq!(count_bombs_in_hand(&hand, Some("2")), 1);
    assert_eq!(count_bombs_in_hand(&hand, None), 0);
}

#[test]
fn five_of_a_suit_in_a_row_are_a_straight_flush() {
    let count = |list: &[&str]| count_straight_flush_approx(&cards(list), Some("2"));
    assert_eq!(count(&["♠3", "♠4", "♠5", "♠6", "♠7"]), 1);
    assert_eq!(count(&["♠7", "♠8", "♠9", "♠10", "♠J"]), 1);
    assert_eq!(count(&["♠10", "♠J", "♠Q", "♠K", "♠A"]), 1);
    assert_eq!(count(&["♠7", "♠8", "♠9", "♥10", "♠J"]), 0);
    assert_eq!(count(&["♠6", "♠7", "♠8", "♠9", "♠J"]), 0);
    assert_eq!(count_straight_flush_approx(&cards(&["♠7", "♠8", "♠9", "♠10", "♠J"]), None), 1);
}

#[test]
fn the_level_has_the_value_of_its_rank() {
    for (level, value) in [("2", 2), ("9", 9), ("10", 10), ("J", 11), ("Q", 12), ("K", 13), ("A", 14)] {
        let state = format!(r#"{{"hand":{{"handLevel":"{level}"}}}}"#);
        assert_eq!(extract_rule_features(&state, 3, 6).level_rank, Some(value));
    }
    assert_eq!(extract_rule_features(r#"{"hand":{"handLevel":"X1"}}"#, 3, 6).level_rank, None);
    assert_eq!(extract_rule_features("{}", 3, 6).level_rank, None);
}

#[test]
fn a_partner_keeps_a_card_of_any_level() {
    let state = table("W", "Ordinary(Single)", 10, [8, 9, 7, 9])
        .replace(r#""handLevel":"2""#, r#""handLevel":"10""#);
    let f = extract_rule_features(&state, 3, 6);
    assert_eq!(f.level_rank, Some(10));
    let (choice, trace) = choose_play_candidate(&RuleBotParams::default_balanced(), &f);
    assert_eq!(choice, PlayCandidate::Pass);
    assert_eq!(trace.reasons, vec!["pass: NEVER override teammate's level card"]);
}

fn table(top_seat: &str, kind: &str, primary: u8, left: [u8; 4]) -> String {
    format!(
        r#"{{"expect":{{"legalActions":["pass","play"]}},
            "private":{{"seat":"E","teammateSeat":"W",
                "handCards":["♠3","♥4","♠K","♥K","♦K","♣K","♠Q","♥Q"]}},
            "hand":{{"handLevel":"2","topPlay":{{"seat":"{top_seat}",
                "combinationKind":"{kind}","primary":{primary}}}}},
            "seats":{{"E":{{"remainingCount":{}}},"S":{{"remainingCount":{}}},
                "W":{{"remainingCount":{}}},"N":{{"remainingCount":{}}}}}}}"#,
        left[0], left[1], left[2], left[3]
    )
}

#[test]
fn features_are_read_from_a_table() {
    let state = table("S", "Ordinary(Single)", 5, [8, 9, 7, 4]);
    let f = extract_rule_features(&state, 3, 6);
    assert_eq!(f.legal_actions, vec!["pass", "play"]);
    assert!(f.can_pass && f.can_play);
    assert_eq!(f.my_seat.as_deref(), Some("E"));
    assert_eq!(f.teammate_seat.as_deref(), Some("W"));
    assert_eq!(f.top_play_seat.as_deref(), Some("S"));
    assert_eq!(f.my_hand_count, 8);
    assert_eq!(f.low_card_count, 2);
    assert_eq!(f.teammate_remaining, Some(7));
    assert_eq!(f.enemy_min_remaining, Some(4));
    assert!(!f.enemy_low_cards_urgent);
    assert!(!f.endgame_mode);
    assert!(!f.leading_new_trick);
    assert_eq!(f.bomb_count, 1);
    assert_eq!(f.top_play_kind.as_deref(), Some("Ordinary(Single)"));
    assert_eq!(f.medium_single_count, 3);
    assert_eq!(f.top_play_value, Some(5));
    assert_eq!(f.level_rank, Some(2));
}

#[test]
fn partner_bomb_is_left_alone() {
    let state = table("W", "Bomb(SameRank)", 5, [8, 9, 7, 9]);
    let f = extract_rule_features(&state, 3, 6);
    let (choice, trace) = choose_play_candidate(&RuleBotParams::default_balanced(), &f);
    assert_eq!(choice, PlayCandidate::Pass);
    assert_eq!(trace.reasons, vec!["pass: NEVER override teammate's bomb"]);
    let unit = 1_000_000_000_000_000_000i128;
    assert_eq!(trace.pass_score, 10 * unit);
    assert_eq!(trace.suggest_score, -10 * unit);
}

#[test]
fn sprinting_enemy_must_be_stopped() {
    let state = table("S", "Ordinary(Pair)", 5, [8, 2, 7, 9]);
    let f = extract_rule_features(&state, 3, 6);
    assert!(f.enemy_low_cards_urgent);
    let (choice, trace) = choose_play_candidate(&RuleBotParams::default_balanced(), &f);
    assert_eq!(choice, PlayCandidate::SuggestPlay);
    assert_eq!(trace.reasons, vec!["suggest: MUST intercept enemy sprinting"]);
}

#[test]
fn small_cards_count_by_their_share() {
    let state = table("S", "Ordinary(Single)", 5, [8, 9, 7, 9]);
    let f = extract_rule_features(&state, 3, 6);
    assert_eq!((f.low_card_count, f.my_hand_count), (2, 8));
    let (choice, trace) = choose_play_candidate(&RuleBotParams::default_balanced(), &f);
    assert_eq!(choice, PlayCandidate::SuggestPlay);
    assert_eq!(trace.suggest_share, 1_120_000_000_000_000_000);
    assert_eq!(trace.suggest_score, 1_100_000_000_000_000_000);
    // 1.5 x 0.8 + 1 for the bomb, less 0.9 for the stall.
    assert_eq!(trace.pass_score, 1_300_000_000_000_000_000);
}

#[test]
fn rule_weights_stay_in_range_when_mutated() {
    let base = RuleBotParams::default_aggressive();
    for _ in 0..200 {
        let m = base.mutate_random(50_000_000);
        assert!((10_000_000..=1_000_000_000).contains(&m.team_win_weight));
        assert!((1..=8).contains(&m.partner_support_threshold));
        assert!((3..=12).contains(&m.endgame_hand_count_threshold));
    }
    let moved = base.mutate_weight(0, 20_000_000);
    assert_eq!(moved.team_win_weight, 110_000_000);
    assert_eq!(base.mutate_threshold(3, true).endgame_hand_count_threshold, 9);
    assert_eq!(base.mutate_threshold(0, false).partner_support_threshold, 1);
}
