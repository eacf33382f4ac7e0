//! What is announced at a table, word for word.

use clawguandan::domain::TeamId;
use clawguandan::narration::{
    format_big_play, format_game_end_by_leave, format_game_end_champion, format_hand_end,
    format_hand_open, format_rank_announce, format_tribute_action, is_big_play_combination,
    last_narration_from_nextstate_json, narration_display_en,
};

fn both(zh: &str, en: &str) -> String {
    format!(r#"{{"en":"{en}","zh":"{zh}"}}"#)
}

fn names(list: &[&str]) -> Vec<String> {
    list.iter().map(|s| s.to_string()).collect()
}

#[test]
fn big_plays_are_announced() {
    assert!(is_big_play_combination(" bomb5 "));
    assert!(is_big_play_combination("straightFlush"));
    assert!(is_big_play_combination("fourJoker"));
    assert!(!is_big_play_combination("straight"));
    assert_eq!(
        format_big_play(" Ann ", "straightFlush"),
        both("Ann 打出同花顺炸! 💥", "Ann plays straight flush bomb! 💥")
    );
    assert_eq!(
        format_big_play("Ann", "fourJoker"),
        both("Ann 打出四王炸! 💥", "Ann plays four-joker bomb! 💥")
    );
    assert_eq!(format_big_play("", "bomb4"), both("玩家 打出炸弹! 💥", "玩家 plays bomb! 💥"));
    assert_eq!(
        format_big_play("Ann", "tube"),
        both("Ann 打出大牌! 💥", "Ann plays big play! 💥")
    );
}

#[test]
fn the_finish_is_announced() {
    for (rank, zh, en) in [
        (1, "头游", "first out"),
        (2, "二游", "second out"),
        (3, "三游", "third out"),
        (4, "末游", "last out"),
        (5, "出完", "out"),
    ] {
        assert_eq!(
            format_rank_announce("Bo", rank),
            both(&format!("Bo {zh}! 🏁"), &format!("Bo {en}! 🏁"))
        );
    }
}

#[test]
fn tributes_are_announced() {
    assert_eq!(
        format_tribute_action("Ann", " ♠A ", "Bo", false),
        both("Ann进贡了♠A给Bo。", "Ann tributed ♠A to Bo.")
    );
    assert_eq!(
        format_tribute_action("Ann", "♠3", " ", true),
        both("Ann还贡了♠3给玩家。", "Ann returned ♠3 to 玩家.")
    );
}

#[test]
fn hands_are_opened() {
    assert_eq!(
        format_hand_open(TeamId::Ew, " 5 "),
        both(
            "本局庄家方为EW（东西组），打5。",
            "This hand: the EW team (East–West) is declarer; hand level 5."
        )
    );
}

#[test]
fn hands_end_with_the_levels() {
    let order = names(&["E", "W", "S", "N"]);
    let end = |demoted: bool, ew: u32, sn: u32| {
        format_hand_end(&order, "A", "7", true, false, None, demoted, TeamId::Ew, ew, sn)
    };
    let zh = |extra: &str| {
        format!("本手排名: E > W > S > N; 当前级别 EW A / SN 7 📈。{extra} 请全员再次准备 ▶️")
    };
    let en = |extra: &str| {
        format!("Ranking: E > W > S > N; Levels EW A / SN 7 📈.{extra} Everyone ready again ▶️")
    };
    assert_eq!(end(false, 0, 0), both(&zh(""), &en("")));
    assert_eq!(
        end(true, 1, 0),
        both(
            &zh(" 💥 EW（东西组） 冲击A级三战失败，退回 2 级，游戏继续！"),
            &en(" 💥 EW (East–West) failed three challenges at level A and drops back to 2. The game continues!")
        )
    );
    assert_eq!(
        end(false, 0, 2),
        both(
            &zh(" ⚠️ SN（南北组） 本手冲击A级未成（第 2/3 次；三败退回2级）"),
            &en(" ⚠️ SN (South–North) failed this level-A challenge (2/3; three fails drop to 2)")
        )
    );
    assert_eq!(
        end(false, 1, 2),
        both(
            &zh(" ⚠️ EW（东西组） 本手冲击A级未成（第 2/3 次；三败退回2级）"),
            &en(" ⚠️ EW (East–West) failed this level-A challenge (2/3; three fails drop to 2)")
        )
    );
}

#[test]
fn hands_end_without_names_or_further_hands() {
    assert_eq!(
        format_hand_end(&[], "3", "4", false, false, None, true, TeamId::Sn, 1, 1),
        both("本手结束; 当前级别 EW 3 / SN 4 📈。", "Hand ended; Levels EW 3 / SN 4 📈.")
    );
    let over = |winner: Option<TeamId>, ew: &str, sn: &str| {
        format_hand_end(&[], ew, sn, true, true, winner, false, TeamId::Ew, 0, 0)
    };
    let expected = |ew: &str, sn: &str, zh: &str, en: &str| {
        both(
            &format!("本手结束；最终成绩 EW {ew} / SN {sn}，恭喜获胜队{zh}，游戏结束！🎉"),
            &format!(
                "Hand ended; Final score EW {ew} / SN {sn}. Congratulations to the winning team {en}. Game over! 🎉"
            ),
        )
    };
    let east = ("EW（东西组）", "EW (East–West)");
    let south = ("SN（南北组）", "SN (South–North)");
    for (winner, ew, sn, team) in [
        (Some(TeamId::Sn), "A", "3", south),
        (Some(TeamId::Ew), "3", "A", east),
        (None, "3", "A", south),
        (None, "A", "A", east),
        (None, "3", "4", east),
    ] {
        assert_eq!(over(winner, ew, sn), expected(ew, sn, team.0, team.1));
    }
}

#[test]
fn champions_are_announced() {
    assert_eq!(
        format_game_end_champion(TeamId::Sn, &names(&["S", "N"]), "9", "A"),
        both(
            "🏆 SN（南北组） A级双上，夺得本场冠军！ 本手排名: S > N；最终成绩 EW 9 / SN A。🎉 新一场即将开始：双方从 2 级重新对战！（12秒后自动发牌）",
            "🏆 SN (South–North) completes level A and wins the match! Ranking: S > N; Final score EW 9 / SN A. 🎉 A new game starts soon: both teams replay from level 2! (dealing automatically in 12 seconds)"
        )
    );
}

#[test]
fn absences_are_announced() {
    assert_eq!(
        format_game_end_by_leave(&names(&["Ann", "Bo"])),
        both(
            "Ann、Bo 超时离开，游戏结束，本局不计分。",
            "Ann、Bo timed out and left. Game ended with no score settlement."
        )
    );
    assert_eq!(
        narration_display_en(&format_game_end_by_leave(&[])),
        "玩家 timed out and left. Game ended with no score settlement."
    );
}

#[test]
fn clients_see_the_english_text() {
    assert_eq!(narration_display_en("   "), "");
    assert_eq!(narration_display_en(r#" {"en":" hi "} "#), "hi");
    assert_eq!(narration_display_en(r#"{"zh":"z"}"#), r#"{"zh":"z"}"#);
    assert_eq!(narration_display_en(r#"{"en":5}"#), r#"{"en":5}"#);
}

#[test]
fn the_last_announcement_of_a_change_counts() {
    let change = r#"{"delta":{"ops":[
        {"op":"replace","path":"/narration","value":"a"},
        {"op":"add","path":"/narration","value":"b"},
        {"op":"replace","path":"/narration","value":{"en":"c"}},
        {"op":"replace","path":"/narration"}]}}"#;
    assert_eq!(last_narration_from_nextstate_json(change).as_deref(), Some(r#"{"en":"c"}"#));
    assert_eq!(last_narration_from_nextstate_json(r#"{"delta":{}}"#), None);
    assert_eq!(last_narration_from_nextstate_json(r#"{"delta":{"ops":[]}}"#), None);
}
