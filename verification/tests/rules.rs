//! Wild cards, levels and announcements.

use clawguandan::cards::{HandLevel, RuleContext};
use clawguandan::domain::TeamId;
use clawguandan::narration::{
    format_hand_open, format_hand_open_with_tribute_canceled, format_tribute_canceled,
    last_narration_from_nextstate_json, narration_display_en,
};
use clawguandan::scoring::{Level, ScoringService, TeamProgress, WinType};
use clawguandan::wildcard_resolver::WildcardResolver;

#[test]
fn reject_joker_target_for_wild() {
    let cards = vec!["♥2".to_string()];
    let targets = vec!["🃏R".to_string()];
    let ctx = RuleContext { hand_level: HandLevel::Two };
    let err = WildcardResolver::resolve(&cards, Some(&targets), ctx).unwrap_err();
    assert!(err.contains("cannot represent joker"));
}

#[test]
fn length_mismatch_errors() {
    let cards = vec!["♥2".into(), "♥2".into()];
    let targets = vec!["♠K".into()];
    let ctx = RuleContext { hand_level: HandLevel::Two };
    let err = WildcardResolver::resolve(&cards, Some(&targets), ctx).unwrap_err();
    assert!(err.contains("mismatch"));
}

#[test]
fn resolves_single_wild() {
    let cards = vec!["♥2".into()];
    let targets = vec!["♠K".into()];
    let ctx = RuleContext { hand_level: HandLevel::Two };
    let out = WildcardResolver::resolve(&cards, Some(&targets), ctx).unwrap();
    assert_eq!(out.len(), 1);
}

#[test]
fn dual_wilds_may_share_target_rank() {
    let cards = vec!["♠5".into(), "♦5".into(), "♥2".into(), "♥2".into()];
    let targets = vec!["♣5".into(), "♥5".into()];
    let ctx = RuleContext { hand_level: HandLevel::Two };
    let out = WildcardResolver::resolve(&cards, Some(&targets), ctx).unwrap();
    assert_eq!(out.len(), 4);
}

fn prog(team: TeamId, level: Level, fails: u32) -> TeamProgress {
    TeamProgress { team, level, ace_failed_attempts: fails }
}

#[test]
fn a_level_declarer_wins_12_game_over() {
    let ew = prog(TeamId::Ew, Level::A, 0);
    let sn = prog(TeamId::Sn, Level::K, 0);
    let out = ScoringService::apply_hand(ew, sn, TeamId::Ew, TeamId::Ew, WinType::OneTwo, false)
        .unwrap();
    assert_eq!(out.winner_team, Some(TeamId::Ew));
}

#[test]
fn a_level_declarer_14_increments_fail_and_opponent_wins_on_third() {
    let ew = prog(TeamId::Ew, Level::A, 2);
    let sn = prog(TeamId::Sn, Level::Q, 0);
    let out = ScoringService::apply_hand(ew, sn, TeamId::Ew, TeamId::Ew, WinType::OneFour, false)
        .unwrap();
    assert_eq!(out.winner_team, Some(TeamId::Sn));
    assert_eq!(out.progress_ew.level, Level::Two);
    assert_eq!(out.progress_ew.ace_failed_attempts, 0);
}

#[test]
fn a_level_declarer_loses_counts_as_failure_no_demotion_before_three() {
    let ew = prog(TeamId::Ew, Level::A, 1);
    let sn = prog(TeamId::Sn, Level::Ten, 0);
    let out =
        ScoringService::apply_hand(ew, sn, TeamId::Ew, TeamId::Sn, WinType::OneThree, false)
            .unwrap();
    assert_eq!(out.winner_team, None);
    assert_eq!(out.progress_ew.level, Level::A);
    assert_eq!(out.progress_ew.ace_failed_attempts, 2);
    assert_eq!(out.progress_sn.level, Level::Q);
}

#[test]
fn non_a_winner_promotes_by_win_type() {
    let ew = prog(TeamId::Ew, Level::Five, 0);
    let sn = prog(TeamId::Sn, Level::K, 0);
    let out = ScoringService::apply_hand(ew, sn, TeamId::Ew, TeamId::Sn, WinType::OneTwo, false)
        .unwrap();
    assert_eq!(out.progress_sn.level, Level::A);
}

#[test]
fn level_promote_capped_at_a() {
    assert_eq!(Level::K.promote_by(4), Level::A);
    assert_eq!(Level::A.promote_by(4), Level::A);
}

#[test]
fn tribute_canceled_narration_mentions_opening_player() {
    let msg = format_tribute_canceled("Alice");
    assert!(msg.contains("抗贡"));
    assert!(msg.contains("Alice"));
    assert!(msg.contains("Tribute canceled"));
}

#[test]
fn hand_open_narration_includes_declarer_and_level() {
    let msg = format_hand_open(TeamId::Ew, "5");
    assert!(msg.contains("庄家方"));
    assert!(msg.contains("打5"));
    assert!(msg.contains("declarer"));
    assert!(msg.contains("hand level 5"));
}

#[test]
fn hand_open_with_tribute_canceled_combines_parts() {
    let msg = format_hand_open_with_tribute_canceled(TeamId::Sn, "A", "Bob");
    assert!(msg.contains("打A"));
    assert!(msg.contains("抗贡"));
    assert!(msg.contains("Bob"));
    assert!(msg.contains("Tribute canceled"));
}

#[test]
fn narration_display_en_prefers_en_field() {
    let raw = r#"{"zh":"中文","en":"Hello"}"#;
    assert_eq!(narration_display_en(raw), "Hello");
    assert_eq!(narration_display_en("plain"), "plain");
}

#[test]
fn last_narration_from_nextstate_json_reads_replace_ops() {
    let message = r#"{
        "seq": 3,
        "delta": {
            "ops": [
                { "op": "replace", "path": "/phase", "value": "playing" },
                { "op": "replace", "path": "/narration", "value": "{\"zh\":\"z\",\"en\":\"e\"}" }
            ]
        }
    }"#;
    assert_eq!(
        last_narration_from_nextstate_json(message).as_deref(),
        Some("{\"zh\":\"z\",\"en\":\"e\"}")
    );
}
