//! What is announced at the table, in Chinese and English.

use vstd::prelude::*;
use vstd::string::*;
use crate::domain::TeamId;
use crate::json::{
    in_braces, json_field_text, json_item_texts, json_pair_text, json_string_text, read_field,
    read_items, read_string, read_string_field, string_field, text_of, write_pair,
};
use crate::text::{
    decimal, is_blank, push_decimal, same_text, texts, trim, trimmed, trimmed_end, trimmed_start,
};

verus! {

/// A text in both languages.
pub ghost struct Bilingual {
    pub zh: Seq<char>,
    pub en: Seq<char>,
}

impl Bilingual {
    /// The announcement: an object with both texts.
    pub open spec fn json(self) -> Seq<char> {
        json_pair_text(self.zh, self.en)
    }
}

/// An announcement reads back as its text in either language.
pub open spec fn speaks(text: Seq<char>, b: Bilingual) -> bool {
    &&& text == b.json()
    &&& in_braces(text)
    &&& string_field(text, "zh"@) == Some(b.zh)
    &&& string_field(text, "en"@) == Some(b.en)
}

fn bilingual(zh: String, en: String) -> (text: String)
    ensures
        speaks(text@, Bilingual { zh: zh@, en: en@ }),
{
    write_pair(zh, en)
}

/// A text begins with another.
pub open spec fn begins_with(text: Seq<char>, start: Seq<char>) -> bool {
    text.len() >= start.len() && text.take(start.len() as int) == start
}

/// Whether a text begins with another.
pub fn starts(text: &str, start: &str) -> (b: bool)
    ensures
        b == begins_with(text@, start@),
{
    let n: usize = start.unicode_len();
    if text.unicode_len() < n {
        return false;
    }
    let head = text.substring_char(0, n);
    assert(head@ =~= text@.take(n as int));
    same_text(head, start)
}

/// Texts one after the other, with a separator in between.
pub open spec fn joined(list: Seq<Seq<char>>, separator: Seq<char>) -> Seq<char>
    decreases list.len(),
{
    if list.len() == 0 {
        Seq::empty()
    } else if list.len() == 1 {
        list[0]
    } else {
        joined(list.drop_last(), separator) + separator + list.last()
    }
}

/// Joins texts with a separator.
pub fn join(list: &[String], separator: &str) -> (text: String)
    ensures
        text@ == joined(texts(list@), separator@),
{
    let ghost all = texts(list@);
    let mut out = String::new();
    assert(all.take(0) =~= Seq::<Seq<char>>::empty());
    for i in 0..list.len()
        invariant
            all == texts(list@),
            out@ == joined(all.take(i as int), separator@),
    {
        assert(all.take(i + 1).drop_last() =~= all.take(i as int));
        assert(all[i as int] == list@[i as int]@);
        if i > 0 {
            out.append(separator);
        }
        out.append(list[i].as_str());
        assert(out@ =~= joined(all.take(i + 1), separator@));
    }
    assert(all.take(all.len() as int) =~= all);
    out
}

/// A player's name without white space around it, or the word for a player.
pub open spec fn shown_name(name: Seq<char>) -> Seq<char> {
    if trimmed(name).len() == 0 {
        "玩家"@
    } else {
        trimmed(name)
    }
}

fn safe_name(name: &str) -> (shown: &str)
    ensures
        shown@ == shown_name(name@),
{
    let short = trim(name);
    if short.is_empty() {
        "玩家"
    } else {
        short
    }
}

/// Whether a combination is worth announcing.
pub open spec fn is_big(combination: Seq<char>) -> bool {
    let ct = trimmed(combination);
    begins_with(ct, "bomb"@) || ct == "straightFlush"@ || ct == "fourJoker"@
}

/// Whether a combination is worth announcing: a bomb of any kind.
pub fn is_big_play_combination(combination_type: &str) -> (b: bool)
    ensures
        b == is_big(combination_type@),
{
    let ct = trim(combination_type);
    starts(ct, "bomb") || same_text(ct, "straightFlush") || same_text(ct, "fourJoker")
}

pub open spec fn big_play(player: Seq<char>, combination: Seq<char>) -> Bilingual {
    let (zh, en) = if combination == "straightFlush"@ {
        ("同花顺炸"@, "straight flush bomb"@)
    } else if combination == "fourJoker"@ {
        ("四王炸"@, "four-joker bomb"@)
    } else if begins_with(combination, "bomb"@) {
        ("炸弹"@, "bomb"@)
    } else {
        ("大牌"@, "big play"@)
    };
    Bilingual {
        zh: shown_name(player) + " 打出"@ + zh + "! 💥"@,
        en: shown_name(player) + " plays "@ + en + "! 💥"@,
    }
}

/// Announces a bomb.
pub fn format_big_play(player_name: &str, combination_type: &str) -> (text: String)
    ensures
        speaks(text@, big_play(player_name@, combination_type@)),
{
    let (kind_zh, kind_en) = if same_text(combination_type, "straightFlush") {
        ("同花顺炸", "straight flush bomb")
    } else if same_text(combination_type, "fourJoker") {
        ("四王炸", "four-joker bomb")
    } else if starts(combination_type, "bomb") {
        ("炸弹", "bomb")
    } else {
        ("大牌", "big play")
    };
    let name = safe_name(player_name);
    bilingual(
        name.to_owned().concat(" 打出").concat(kind_zh).concat("! 💥"),
        name.to_owned().concat(" plays ").concat(kind_en).concat("! 💥"),
    )
}

pub open spec fn rank_announce(player: Seq<char>, rank: int) -> Bilingual {
    let (zh, en) = if rank == 1 {
        ("头游"@, "first out"@)
    } else if rank == 2 {
        ("二游"@, "second out"@)
    } else if rank == 3 {
        ("三游"@, "third out"@)
    } else if rank == 4 {
        ("末游"@, "last out"@)
    } else {
        ("出完"@, "out"@)
    };
    Bilingual {
        zh: shown_name(player) + " "@ + zh + "! 🏁"@,
        en: shown_name(player) + " "@ + en + "! 🏁"@,
    }
}

/// Announces a player who is out.
pub fn format_rank_announce(player_name: &str, rank: usize) -> (text: String)
    ensures
        speaks(text@, rank_announce(player_name@, rank as int)),
{
    let (zh, en) = match rank {
        1 => ("头游", "first out"),
        2 => ("二游", "second out"),
        3 => ("三游", "third out"),
        4 => ("末游", "last out"),
        _ => ("出完", "out"),
    };
    let name = safe_name(player_name);
    bilingual(
        name.to_owned().concat(" ").concat(zh).concat("! 🏁"),
        name.to_owned().concat(" ").concat(en).concat("! 🏁"),
    )
}

pub open spec fn tribute_action(
    player: Seq<char>,
    card: Seq<char>,
    target: Seq<char>,
    is_return: bool,
) -> Bilingual {
    Bilingual {
        zh: shown_name(player) + (if is_return {
            "还贡了"@
        } else {
            "进贡了"@
        }) + trimmed(card) + "给"@ + shown_name(target) + "。"@,
        en: shown_name(player) + (if is_return {
            " returned "@
        } else {
            " tributed "@
        }) + trimmed(card) + " to "@ + shown_name(target) + "."@,
    }
}

/// Announces a tribute or its return.
pub fn format_tribute_action(player_name: &str, card: &str, target_name: &str, is_return: bool) -> (text:
    String)
    ensures
        speaks(text@, tribute_action(player_name@, card@, target_name@, is_return)),
{
    let player = safe_name(player_name);
    let target = safe_name(target_name);
    let short = trim(card);
    let (zh, en) = if is_return {
        ("还贡了", " returned ")
    } else {
        ("进贡了", " tributed ")
    };
    bilingual(
        player.to_owned().concat(zh).concat(short).concat("给").concat(target).concat("。"),
        player.to_owned().concat(en).concat(short).concat(" to ").concat(target).concat("."),
    )
}

pub open spec fn tribute_canceled(player: Seq<char>) -> Bilingual {
    Bilingual {
        zh: "本局抗贡（免进贡），由"@ + shown_name(player) + "先出。"@,
        en: "Tribute canceled for this hand; "@ + shown_name(player) + " leads first."@,
    }
}

/// Announces that no tribute is due.
pub fn format_tribute_canceled(opening_player_name: &str) -> (text: String)
    ensures
        speaks(text@, tribute_canceled(opening_player_name@)),
{
    let name = safe_name(opening_player_name);
    bilingual(
        "本局抗贡（免进贡），由".to_owned().concat(name).concat("先出。"),
        "Tribute canceled for this hand; ".to_owned().concat(name).concat(" leads first."),
    )
}

pub open spec fn declarer_names(team: TeamId) -> Bilingual {
    match team {
        TeamId::Ew => Bilingual { zh: "EW（东西组）"@, en: "the EW team (East–West)"@ },
        TeamId::Sn => Bilingual { zh: "SN（南北组）"@, en: "the SN team (South–North)"@ },
    }
}

fn declarer_phrase(team: TeamId) -> (phrase: (&'static str, &'static str))
    ensures
        declarer_names(team) == (Bilingual { zh: phrase.0@, en: phrase.1@ }),
{
    match team {
        TeamId::Ew => ("EW（东西组）", "the EW team (East–West)"),
        TeamId::Sn => ("SN（南北组）", "the SN team (South–North)"),
    }
}

pub open spec fn hand_open(declarer: TeamId, level: Seq<char>) -> Bilingual {
    Bilingual {
        zh: "本局庄家方为"@ + declarer_names(declarer).zh + "，打"@ + trimmed(level) + "。"@,
        en: "This hand: "@ + declarer_names(declarer).en + " is declarer; hand level "@ + trimmed(
            level,
        ) + "."@,
    }
}

/// Announces the declarer and the level of a hand.
pub fn format_hand_open(declarer: TeamId, level_api: &str) -> (text: String)
    ensures
        speaks(text@, hand_open(declarer, level_api@)),
{
    let (zh, en) = declarer_phrase(declarer);
    let level = trim(level_api);
    bilingual(
        "本局庄家方为".to_owned().concat(zh).concat("，打").concat(level).concat("。"),
        "This hand: ".to_owned().concat(en).concat(" is declarer; hand level ").concat(
            level,
        ).concat("."),
    )
}

pub open spec fn hand_open_untaxed(
    declarer: TeamId,
    level: Seq<char>,
    player: Seq<char>,
) -> Bilingual {
    Bilingual {
        zh: "本局庄家方为"@ + declarer_names(declarer).zh + "，打"@ + trimmed(level)
            + "。抗贡（免进贡），由"@ + shown_name(player) + "先出。"@,
        en: "This hand: "@ + declarer_names(declarer).en + " is declarer; hand level "@ + trimmed(
            level,
        ) + ". Tribute canceled; "@ + shown_name(player) + " leads first."@,
    }
}

/// Announces the declarer and the level of a hand without tribute, and who leads.
pub fn format_hand_open_with_tribute_canceled(
    declarer: TeamId,
    level_api: &str,
    opening_player_name: &str,
) -> (text: String)
    ensures
        speaks(text@, hand_open_untaxed(declarer, level_api@, opening_player_name@)),
{
    let (zh, en) = declarer_phrase(declarer);
    let level = trim(level_api);
    let name = safe_name(opening_player_name);
    bilingual(
        "本局庄家方为".to_owned().concat(zh).concat("，打").concat(level).concat(
            "。抗贡（免进贡），由",
        ).concat(name).concat("先出。"),
        "This hand: ".to_owned().concat(en).concat(" is declarer; hand level ").concat(
            level,
        ).concat(". Tribute canceled; ").concat(name).concat(" leads first."),
    )
}

pub open spec fn team_names(team: TeamId) -> Bilingual {
    match team {
        TeamId::Ew => Bilingual { zh: "EW（东西组）"@, en: "EW (East–West)"@ },
        TeamId::Sn => Bilingual { zh: "SN（南北组）"@, en: "SN (South–North)"@ },
    }
}

fn hand_end_team_label(team: TeamId) -> (label: (&'static str, &'static str))
    ensures
        team_names(team) == (Bilingual { zh: label.0@, en: label.1@ }),
{
    match team {
        TeamId::Ew => ("EW（东西组）", "EW (East–West)"),
        TeamId::Sn => ("SN（南北组）", "SN (South–North)"),
    }
}

/// The ranking of a hand.
pub open spec fn ranking(names: Seq<Seq<char>>) -> Bilingual {
    if names.len() == 0 {
        Bilingual { zh: "本手结束"@, en: "Hand ended"@ }
    } else {
        Bilingual {
            zh: "本手排名: "@ + joined(names, " > "@),
            en: "Ranking: "@ + joined(names, " > "@),
        }
    }
}

fn ranking_line(names: &[String]) -> (line: (String, String))
    ensures
        ranking(texts(names@)) == (Bilingual { zh: line.0@, en: line.1@ }),
{
    assert(texts(names@).len() == names@.len());
    if names.len() == 0 {
        ("本手结束".to_owned(), "Hand ended".to_owned())
    } else {
        let list = join(names, " > ");
        (
            "本手排名: ".to_owned().concat(list.as_str()),
            "Ranking: ".to_owned().concat(list.as_str()),
        )
    }
}

/// The team that a finished game is credited to: the given one, or the only one at the ace,
/// or East and West.
pub open spec fn credited(winner: Option<TeamId>, ew: Seq<char>, sn: Seq<char>) -> TeamId {
    match winner {
        Some(team) => team,
        None => if sn == "A"@ && ew != "A"@ {
            TeamId::Sn
        } else {
            TeamId::Ew
        },
    }
}

/// A note on failures at the ace.
pub open spec fn ace_note(demoted: bool, declarer: TeamId, ew_fails: nat, sn_fails: nat) -> Bilingual {
    if demoted {
        Bilingual {
            zh: " 💥 "@ + team_names(declarer).zh + " 冲击A级三战失败，退回 2 级，游戏继续！"@,
            en: " 💥 "@ + team_names(declarer).en
                + " failed three challenges at level A and drops back to 2. The game continues!"@,
        }
    } else {
        let n = if ew_fails >= sn_fails {
            ew_fails
        } else {
            sn_fails
        };
        let team = if ew_fails > 0 {
            TeamId::Ew
        } else {
            TeamId::Sn
        };
        if n > 0 {
            Bilingual {
                zh: " ⚠️ "@ + team_names(team).zh + " 本手冲击A级未成（第 "@ + decimal(n)
                    + "/3 次；三败退回2级）"@,
                en: " ⚠️ "@ + team_names(team).en + " failed this level-A challenge ("@ + decimal(n)
                    + "/3; three fails drop to 2)"@,
            }
        } else {
            Bilingual { zh: Seq::empty(), en: Seq::empty() }
        }
    }
}

/// The end of a hand.
pub open spec fn hand_end(
    names: Seq<Seq<char>>,
    ew: Seq<char>,
    sn: Seq<char>,
    waiting_ready: bool,
    game_over: bool,
    winner: Option<TeamId>,
    note: Bilingual,
) -> Bilingual {
    let order = ranking(names);
    if game_over {
        let team = team_names(credited(winner, ew, sn));
        Bilingual {
            zh: order.zh + "；最终成绩 EW "@ + ew + " / SN "@ + sn + "，恭喜获胜队"@ + team.zh
                + "，游戏结束！🎉"@,
            en: order.en + "; Final score EW "@ + ew + " / SN "@ + sn
                + ". Congratulations to the winning team "@ + team.en + ". Game over! 🎉"@,
        }
    } else if waiting_ready {
        Bilingual {
            zh: order.zh + "; 当前级别 EW "@ + ew + " / SN "@ + sn + " 📈。"@ + note.zh
                + " 请全员再次准备 ▶️"@,
            en: order.en + "; Levels EW "@ + ew + " / SN "@ + sn + " 📈."@ + note.en
                + " Everyone ready again ▶️"@,
        }
    } else {
        Bilingual {
            zh: order.zh + "; 当前级别 EW "@ + ew + " / SN "@ + sn + " 📈。"@,
            en: order.en + "; Levels EW "@ + ew + " / SN "@ + sn + " 📈."@,
        }
    }
}

fn ace_line(demoted: bool, declarer: TeamId, ew_fails: u32, sn_fails: u32) -> (line: (
    String,
    String,
))
    ensures
        ace_note(demoted, declarer, ew_fails as nat, sn_fails as nat) == (Bilingual {
            zh: line.0@,
            en: line.1@,
        }),
{
    if demoted {
        let (zh, en) = hand_end_team_label(declarer);
        return (
            " 💥 ".to_owned().concat(zh).concat(" 冲击A级三战失败，退回 2 级，游戏继续！"),
            " 💥 ".to_owned().concat(en).concat(
                " failed three challenges at level A and drops back to 2. The game continues!",
            ),
        );
    }
    let n: u32 = if ew_fails >= sn_fails {
        ew_fails
    } else {
        sn_fails
    };
    if n == 0 {
        return (String::new(), String::new());
    }
    let (zh, en) = hand_end_team_label(
        if ew_fails > 0 {
            TeamId::Ew
        } else {
            TeamId::Sn
        },
    );
    let mut zh_line = " ⚠️ ".to_owned().concat(zh).concat(" 本手冲击A级未成（第 ");
    push_decimal(&mut zh_line, n as u64);
    let mut en_line = " ⚠️ ".to_owned().concat(en).concat(" failed this level-A challenge (");
    push_decimal(&mut en_line, n as u64);
    (zh_line.concat("/3 次；三败退回2级）"), en_line.concat("/3; three fails drop to 2)"))
}

/// Announces the end of a hand: the ranking, the levels, failures at the ace, and the winner
/// where the game is over.
pub fn format_hand_end(
    finishing_names: &[String],
    level_ew: &str,
    level_sn: &str,
    waiting_ready: bool,
    game_over: bool,
    winner_team: Option<TeamId>,
    demoted_from_a: bool,
    declarer_team: TeamId,
    ew_a_fail_count: u32,
    sn_a_fail_count: u32,
) -> (text: String)
    ensures
        speaks(
            text@,
            hand_end(
                texts(finishing_names@),
                level_ew@,
                level_sn@,
                waiting_ready,
                game_over,
                winner_team,
                ace_note(
                    demoted_from_a,
                    declarer_team,
                    ew_a_fail_count as nat,
                    sn_a_fail_count as nat,
                ),
            ),
        ),
{
    let (order_zh, order_en) = ranking_line(finishing_names);
    if game_over {
        let team = match winner_team {
            Some(team) => team,
            None => if same_text(level_sn, "A") && !same_text(level_ew, "A") {
                TeamId::Sn
            } else {
                TeamId::Ew
            },
        };
        let (zh, en) = hand_end_team_label(team);
        return bilingual(
            order_zh.concat("；最终成绩 EW ").concat(level_ew).concat(" / SN ").concat(
                level_sn,
            ).concat("，恭喜获胜队").concat(zh).concat("，游戏结束！🎉"),
            order_en.concat("; Final score EW ").concat(level_ew).concat(" / SN ").concat(
                level_sn,
            ).concat(". Congratulations to the winning team ").concat(en).concat(". Game over! 🎉"),
        );
    }
    let zh = order_zh.concat("; 当前级别 EW ").concat(level_ew).concat(" / SN ").concat(
        level_sn,
    ).concat(" 📈。");
    let en = order_en.concat("; Levels EW ").concat(level_ew).concat(" / SN ").concat(
        level_sn,
    ).concat(" 📈.");
    if waiting_ready {
        let (note_zh, note_en) = ace_line(
            demoted_from_a,
            declarer_team,
            ew_a_fail_count,
            sn_a_fail_count,
        );
        bilingual(
            zh.concat(note_zh.as_str()).concat(" 请全员再次准备 ▶️"),
            en.concat(note_en.as_str()).concat(" Everyone ready again ▶️"),
        )
    } else {
        bilingual(zh, en)
    }
}

pub open spec fn game_end_champion(
    winner: TeamId,
    names: Seq<Seq<char>>,
    ew: Seq<char>,
    sn: Seq<char>,
) -> Bilingual {
    let order = ranking(names);
    let team = team_names(winner);
    Bilingual {
        zh: "🏆 "@ + team.zh + " A级双上，夺得本场冠军！ "@ + order.zh + "；最终成绩 EW "@ + ew
            + " / SN "@ + sn + "。🎉 新一场即将开始：双方从 2 级重新对战！（12秒后自动发牌）"@,
        en: "🏆 "@ + team.en + " completes level A and wins the match! "@ + order.en
            + "; Final score EW "@ + ew + " / SN "@ + sn
            + ". 🎉 A new game starts soon: both teams replay from level 2! (dealing automatically in 12 seconds)"@,
    }
}

/// Announces a championship, after which a new game starts from level two.
pub fn format_game_end_champion(
    winner_team: TeamId,
    finishing_names: &[String],
    level_ew: &str,
    level_sn: &str,
) -> (text: String)
    ensures
        speaks(text@, game_end_champion(winner_team, texts(finishing_names@), level_ew@, level_sn@)),
{
    let (order_zh, order_en) = ranking_line(finishing_names);
    let (zh, en) = hand_end_team_label(winner_team);
    bilingual(
        "🏆 ".to_owned().concat(zh).concat(" A级双上，夺得本场冠军！ ").concat(
            order_zh.as_str(),
        ).concat("；最终成绩 EW ").concat(level_ew).concat(" / SN ").concat(level_sn).concat(
            "。🎉 新一场即将开始：双方从 2 级重新对战！（12秒后自动发牌）",
        ),
        "🏆 ".to_owned().concat(en).concat(" completes level A and wins the match! ").concat(
            order_en.as_str(),
        ).concat("; Final score EW ").concat(level_ew).concat(" / SN ").concat(level_sn).concat(
            ". 🎉 A new game starts soon: both teams replay from level 2! (dealing automatically in 12 seconds)",
        ),
    )
}

pub open spec fn game_end_by_leave(names: Seq<Seq<char>>) -> Bilingual {
    let list = if names.len() == 0 {
        "玩家"@
    } else {
        joined(names, "、"@)
    };
    Bilingual {
        zh: list + " 超时离开，游戏结束，本局不计分。"@,
        en: list + " timed out and left. Game ended with no score settlement."@,
    }
}

/// Announces that players have timed out and the game is over.
pub fn format_game_end_by_leave(leaving_names: &[String]) -> (text: String)
    ensures
        speaks(text@, game_end_by_leave(texts(leaving_names@))),
{
    assert(texts(leaving_names@).len() == leaving_names@.len());
    let list = if leaving_names.len() == 0 {
        "玩家".to_owned()
    } else {
        join(leaving_names, "、")
    };
    bilingual(
        list.clone().concat(" 超时离开，游戏结束，本局不计分。"),
        list.concat(" timed out and left. Game ended with no score settlement."),
    )
}

/// What a client shows of an announcement: its English text, or the announcement itself where
/// it has none.
pub open spec fn displayed(raw: Seq<char>) -> Seq<char> {
    let t = trimmed(raw);
    if t.len() == 0 {
        Seq::empty()
    } else {
        match string_field(t, "en"@) {
            Some(en) => trimmed(en),
            None => t,
        }
    }
}

/// What a client shows of an announcement.
pub fn narration_display_en(raw: &str) -> (text: String)
    ensures
        text@ == displayed(raw@),
{
    let t = trim(raw);
    if t.is_empty() {
        return String::new();
    }
    show_english(t, read_string_field(t, "en"))
}

/// The English text of an announcement, or the announcement where it has none.
pub fn show_english(announcement: &str, english: Option<String>) -> (text: String)
    ensures
        text@ == match english {
            Some(en) => trimmed(en@),
            None => announcement@,
        },
{
    match english {
        Some(en) => trim(en.as_str()).to_owned(),
        None => announcement.to_owned(),
    }
}

/// Every announcement is shown to clients as its English text.
pub proof fn announcements_show_their_english(text: Seq<char>, b: Bilingual)
    requires
        speaks(text, b),
    ensures
        displayed(text) == trimmed(b.en),
{
    assert(!is_blank('\u{7b}') && !is_blank('\u{7d}'));
    assert(trimmed_start(text) == text);
    assert(trimmed_end(text) == text);
}

/// One change of a table's state.
pub struct PatchOp {
    pub op: Option<String>,
    pub path: Option<String>,
    /// The new value: a string as it is, anything else as JSON text.
    pub value: Option<String>,
}

/// A change that replaces the announcement.
pub open spec fn replaces_narration(op: PatchOp) -> bool {
    text_of(op.op) == Some("replace"@) && text_of(op.path) == Some("/narration"@) && op.value is Some
}

/// The announcement after the first `n` changes.
pub open spec fn narration_after(ops: Seq<PatchOp>, n: int) -> Option<Seq<char>>
    decreases n,
{
    if n <= 0 {
        None
    } else if replaces_narration(ops[n - 1]) {
        Some(ops[n - 1].value->Some_0@)
    } else {
        narration_after(ops, n - 1)
    }
}

fn is_text(text: &Option<String>, expected: &str) -> (b: bool)
    ensures
        b == (text_of(*text) == Some(expected@)),
{
    match text {
        Some(t) => same_text(t.as_str(), expected),
        None => false,
    }
}

/// The announcement that a list of changes ends with, if it has one.
pub fn last_narration(ops: &Vec<PatchOp>) -> (text: Option<String>)
    ensures
        match text {
            Some(t) => narration_after(ops@, ops@.len() as int) == Some(t@),
            None => narration_after(ops@, ops@.len() as int) is None,
        },
{
    let mut out: Option<String> = None;
    for i in 0..ops.len()
        invariant
            match out {
                Some(t) => narration_after(ops@, i as int) == Some(t@),
                None => narration_after(ops@, i as int) is None,
            },
    {
        let op = &ops[i];
        if is_text(&op.op, "replace") && is_text(&op.path, "/narration") {
            if let Some(value) = &op.value {
                out = Some(value.clone());
            }
        }
    }
    out
}

/// A string as it is, anything else as JSON text.
pub open spec fn plain_value_text(field: Option<Seq<char>>) -> Option<Seq<char>> {
    match field {
        Some(text) => match json_string_text(text) {
            Some(s) => Some(s),
            None => Some(text),
        },
        None => None,
    }
}

/// A change as its JSON text describes it.
pub open spec fn describes(op: PatchOp, text: Seq<char>) -> bool {
    &&& text_of(op.op) == string_field(text, "op"@)
    &&& text_of(op.path) == string_field(text, "path"@)
    &&& text_of(op.value) == plain_value_text(json_field_text(text, "value"@))
}

fn read_op(text: &str) -> (op: PatchOp)
    ensures
        describes(op, text@),
{
    let value: Option<String> = match read_field(text, "value") {
        Some(field) => match read_string(field.as_str()) {
            Some(s) => Some(s),
            None => Some(field),
        },
        None => None,
    };
    PatchOp {
        op: read_string_field(text, "op"),
        path: read_string_field(text, "path"),
        value,
    }
}

/// The changes that a JSON text lists under `delta` and `ops`.
pub open spec fn listed_ops(text: Seq<char>) -> Option<Seq<Seq<char>>> {
    match json_field_text(text, "delta"@) {
        Some(delta) => match json_field_text(delta, "ops"@) {
            Some(ops) => json_item_texts(ops),
            None => None,
        },
        None => None,
    }
}

/// The announcement after the first `n` changes of a list of JSON texts.
pub open spec fn narration_of_texts(list: Seq<Seq<char>>, n: int) -> Option<Seq<char>>
    decreases n,
{
    if n <= 0 {
        None
    } else {
        let text = list[n - 1];
        if string_field(text, "op"@) == Some("replace"@) && string_field(text, "path"@) == Some(
            "/narration"@,
        ) && json_field_text(text, "value"@) is Some {
            plain_value_text(json_field_text(text, "value"@))
        } else {
            narration_of_texts(list, n - 1)
        }
    }
}

proof fn lemma_narration_of_texts(ops: Seq<PatchOp>, list: Seq<Seq<char>>, n: int)
    requires
        ops.len() == list.len(),
        forall|i: int| 0 <= i < ops.len() ==> describes(#[trigger] ops[i], list[i]),
        0 <= n <= ops.len(),
    ensures
        narration_after(ops, n) == narration_of_texts(list, n),
    decreases n,
{
    if n > 0 {
        lemma_narration_of_texts(ops, list, n - 1);
        assert(describes(ops[n - 1], list[n - 1]));
    }
}

/// The announcement that the changes in a state message end with, if they have one. The
/// message is given as JSON text.
pub fn last_narration_from_nextstate_json(message: &str) -> (text: Option<String>)
    ensures
        match listed_ops(message@) {
            Some(list) => text_of(text) == narration_of_texts(list, list.len() as int),
            None => text is None,
        },
{
    let delta = match read_field(message, "delta") {
        Some(d) => d,
        None => {
            return None;
        },
    };
    let ops_text = match read_field(delta.as_str(), "ops") {
        Some(o) => o,
        None => {
            return None;
        },
    };
    let items = match read_items(ops_text.as_str()) {
        Some(list) => list,
        None => {
            return None;
        },
    };
    let ghost list = texts(items@);
    let mut ops: Vec<PatchOp> = Vec::new();
    for i in 0..items.len()
        invariant
            list == texts(items@),
            ops@.len() == i,
            forall|j: int| 0 <= j < i ==> describes(#[trigger] ops@[j], list[j]),
    {
        assert(list[i as int] == items@[i as int]@);
        ops.push(read_op(items[i].as_str()));
    }
    proof {
        lemma_narration_of_texts(ops@, list, list.len() as int);
    }
    last_narration(&ops)
}

/// Of several changes to the announcement the last one stands.
pub proof fn last_announcement_stands(ops: Seq<PatchOp>, n: int)
    requires
        0 <= n <= ops.len(),
    ensures
        match narration_after(ops, n) {
            Some(text) => exists|i: int|
                0 <= i < n && replaces_narration(#[trigger] ops[i]) && ops[i].value->Some_0@ == text
                    && forall|j: int| i < j < n ==> !replaces_narration(#[trigger] ops[j]),
            None => forall|j: int| 0 <= j < n ==> !replaces_narration(#[trigger] ops[j]),
        },
    decreases n,
{
    if n > 0 {
        last_announcement_stands(ops, n - 1);
        assert(ops[n - 1] == ops[n - 1]);
        if !replaces_narration(ops[n - 1]) && narration_after(ops, n - 1) is Some {
            let i = choose|i: int|
                0 <= i < n - 1 && replaces_narration(#[trigger] ops[i]) && ops[i].value->Some_0@
                    == narration_after(ops, n - 1)->Some_0 && forall|j: int|
                    i < j < n - 1 ==> !replaces_narration(#[trigger] ops[j]);
            assert(replaces_narration(ops[i]));
        }
    }
}

} // verus!
