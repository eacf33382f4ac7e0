//! How a hand moves the teams up and down the ladder of levels.

use vstd::prelude::*;
use crate::cards::{HandLevel, level_at, level_rank, level_step, natural};
use crate::domain::TeamId;

verus! {

/// A level of a team.
pub type Level = HandLevel;

/// Places at which the winning team's players finish.
#[derive(Clone, Copy, Debug, PartialEq, Eq, Structural)]
pub enum WinType {
    OneTwo,
    OneThree,
    OneFour,
}

/// Levels gained by a win.
pub open spec fn gain(win: WinType) -> int {
    match win {
        WinType::OneFour => 1,
        WinType::OneThree => 2,
        WinType::OneTwo => 3,
    }
}

impl WinType {
    /// Levels gained by the win.
    pub fn promotion_delta(self) -> (delta: u8)
        ensures
            delta == gain(self),
    {
        match self {
            WinType::OneFour => 1,
            WinType::OneThree => 2,
            WinType::OneTwo => 3,
        }
    }
}

/// Where a team stands.
#[derive(Clone, Copy, Debug, PartialEq, Eq, Structural)]
pub struct TeamProgress {
    pub team: TeamId,
    pub level: Level,
    /// Failed attempts as declarer at the ace, in a row or not.
    pub ace_failed_attempts: u32,
}

/// The result of a hand.
#[derive(Clone, Copy, Debug, PartialEq, Eq, Structural)]
pub struct HandResult {
    pub winner_team: TeamId,
    pub win_type: WinType,
    pub promotion_delta: u8,
}

/// Where the teams stand after a hand, and who has won the game, if anyone.
#[derive(Clone, Copy, Debug, PartialEq, Eq, Structural)]
pub struct GameOutcome {
    pub winner_team: Option<TeamId>,
    pub next_declarer: TeamId,
    pub progress_ew: TeamProgress,
    pub progress_sn: TeamProgress,
}

pub open spec fn other_team(team: TeamId) -> TeamId {
    match team {
        TeamId::Ew => TeamId::Sn,
        TeamId::Sn => TeamId::Ew,
    }
}

pub open spec fn choose_team<T>(team: TeamId, ew: T, sn: T) -> T {
    match team {
        TeamId::Ew => ew,
        TeamId::Sn => sn,
    }
}

/// A team's progress with the gain of a win, if the team has won.
pub open spec fn after_win(p: TeamProgress, won: bool, win: WinType) -> TeamProgress {
    if won {
        TeamProgress { level: level_at(level_step(p.level) + gain(win)), ..p }
    } else {
        p
    }
}

/// The declarer has finished the ace with both players first.
pub open spec fn completes_ace(declarer_level: Level, won: bool, win: WinType) -> bool {
    declarer_level == Level::A && won && win == WinType::OneTwo
}

/// Where the teams stand after a hand.
///
/// A declarer at the ace wins the game by finishing first and second. Anything else counts as
/// a failed attempt; the third gives the game to the opponents and sends the declarer back to
/// two. A lost hand may send the declarer back at once. Below the ace the winner goes up.
pub open spec fn hand_applied(
    ew: TeamProgress,
    sn: TeamProgress,
    declarer: TeamId,
    winner: TeamId,
    win: WinType,
    demotes: bool,
) -> GameOutcome {
    let own = choose_team(declarer, ew, sn);
    if completes_ace(own.level, winner == declarer, win) {
        GameOutcome {
            winner_team: Some(declarer),
            next_declarer: declarer,
            progress_ew: ew,
            progress_sn: sn,
        }
    } else {
        let ew1 = after_win(ew, winner == TeamId::Ew, win);
        let sn1 = after_win(sn, winner == TeamId::Sn, win);
        if own.level != Level::A {
            GameOutcome {
                winner_team: None,
                next_declarer: winner,
                progress_ew: ew1,
                progress_sn: sn1,
            }
        } else {
            let third = own.ace_failed_attempts + 1 >= 3;
            let failed = TeamProgress {
                level: if third || (demotes && winner != declarer) {
                    Level::Two
                } else {
                    Level::A
                },
                ace_failed_attempts: if third {
                    0
                } else {
                    (own.ace_failed_attempts + 1) as u32
                },
                ..own
            };
            GameOutcome {
                winner_team: if third {
                    Some(other_team(declarer))
                } else {
                    None
                },
                next_declarer: winner,
                progress_ew: choose_team(declarer, failed, ew1),
                progress_sn: choose_team(declarer, sn1, failed),
            }
        }
    }
}

pub struct ScoringService;

impl ScoringService {
    /// Applies the result of a hand to the teams. With `ace_finish_demotes_declarer`, a
    /// declarer at the ace who loses goes back to two at once.
    pub fn apply_hand(
        progress_ew: TeamProgress,
        progress_sn: TeamProgress,
        declarer: TeamId,
        winner: TeamId,
        win_type: WinType,
        ace_finish_demotes_declarer: bool,
    ) -> (outcome: Result<GameOutcome, String>)
        requires
            choose_team(declarer, progress_ew, progress_sn).ace_failed_attempts < u32::MAX,
        ensures
            outcome == Ok::<GameOutcome, String>(
                hand_applied(
                    progress_ew,
                    progress_sn,
                    declarer,
                    winner,
                    win_type,
                    ace_finish_demotes_declarer,
                ),
            ),
    {
        let delta: u8 = win_type.promotion_delta();
        let mut ew = progress_ew;
        let mut sn = progress_sn;
        let own = match declarer {
            TeamId::Ew => ew,
            TeamId::Sn => sn,
        };
        let at_ace = own.level == Level::A;
        if at_ace && winner == declarer && win_type == WinType::OneTwo {
            return Ok(
                GameOutcome {
                    winner_team: Some(declarer),
                    next_declarer: declarer,
                    progress_ew: ew,
                    progress_sn: sn,
                },
            );
        }
        match winner {
            TeamId::Ew => {
                ew.level = ew.level.promote_by(delta);
            },
            TeamId::Sn => {
                sn.level = sn.level.promote_by(delta);
            },
        }
        let mut winner_team: Option<TeamId> = None;
        if at_ace {
            let attempts: u32 = own.ace_failed_attempts + 1;
            let third = attempts >= 3;
            let failed = TeamProgress {
                team: own.team,
                level: if third || (ace_finish_demotes_declarer && winner != declarer) {
                    Level::Two
                } else {
                    Level::A
                },
                ace_failed_attempts: if third {
                    0
                } else {
                    attempts
                },
            };
            match declarer {
                TeamId::Ew => {
                    ew = failed;
                    if third {
                        winner_team = Some(TeamId::Sn);
                    }
                },
                TeamId::Sn => {
                    sn = failed;
                    if third {
                        winner_team = Some(TeamId::Ew);
                    }
                },
            }
        }
        Ok(
            GameOutcome {
                winner_team,
                next_declarer: winner,
                progress_ew: ew,
                progress_sn: sn,
            },
        )
    }
}

/// Where the teams stand after a hand under the house rules.
#[derive(Clone, Copy, Debug, PartialEq, Eq, Structural)]
pub struct HandOutcome {
    pub progress_ew: TeamProgress,
    pub progress_sn: TeamProgress,
    pub next_declarer: TeamId,
    pub declarer_team_id: TeamId,
    /// The declarer has failed at the ace for the third time and goes back to two.
    pub demoted_from_a: bool,
    /// The champion; only finishing first and second at the ace makes one.
    pub game_winner_team_id: Option<TeamId>,
}

/// Where the teams stand after a hand under the house rules: as by [`hand_applied`], but the
/// third failure at the ace wins nobody the game, which goes on.
pub open spec fn house_applied(
    ew: TeamProgress,
    sn: TeamProgress,
    declarer: TeamId,
    winner: TeamId,
    win: WinType,
) -> HandOutcome {
    let own = choose_team(declarer, ew, sn);
    let plain = hand_applied(ew, sn, declarer, winner, win, false);
    let champion = completes_ace(own.level, winner == declarer, win);
    HandOutcome {
        progress_ew: plain.progress_ew,
        progress_sn: plain.progress_sn,
        next_declarer: plain.next_declarer,
        declarer_team_id: declarer,
        demoted_from_a: !champion && own.level == Level::A && own.ace_failed_attempts + 1 >= 3,
        game_winner_team_id: if champion {
            Some(declarer)
        } else {
            None
        },
    }
}

/// Applies the result of a hand to the teams under the house rules.
pub fn apply_hand_house_rules(
    progress_ew: TeamProgress,
    progress_sn: TeamProgress,
    declarer: TeamId,
    winner: TeamId,
    win_type: WinType,
) -> (outcome: HandOutcome)
    requires
        choose_team(declarer, progress_ew, progress_sn).ace_failed_attempts < u32::MAX,
    ensures
        outcome == house_applied(progress_ew, progress_sn, declarer, winner, win_type),
{
    let delta: u8 = win_type.promotion_delta();
    let mut ew = progress_ew;
    let mut sn = progress_sn;
    let own = match declarer {
        TeamId::Ew => ew,
        TeamId::Sn => sn,
    };
    let at_ace = own.level == Level::A;
    if at_ace && winner == declarer && win_type == WinType::OneTwo {
        return HandOutcome {
            progress_ew: ew,
            progress_sn: sn,
            next_declarer: declarer,
            declarer_team_id: declarer,
            demoted_from_a: false,
            game_winner_team_id: Some(declarer),
        };
    }
    match winner {
        TeamId::Ew => {
            ew.level = ew.level.promote_by(delta);
        },
        TeamId::Sn => {
            sn.level = sn.level.promote_by(delta);
        },
    }
    let mut demoted = false;
    if at_ace {
        let attempts: u32 = own.ace_failed_attempts + 1;
        demoted = attempts >= 3;
        let failed = if demoted {
            TeamProgress { team: own.team, level: Level::Two, ace_failed_attempts: 0 }
        } else {
            TeamProgress { team: own.team, level: Level::A, ace_failed_attempts: attempts }
        };
        match declarer {
            TeamId::Ew => {
                ew = failed;
            },
            TeamId::Sn => {
                sn = failed;
            },
        }
    }
    HandOutcome {
        progress_ew: ew,
        progress_sn: sn,
        next_declarer: winner,
        declarer_team_id: declarer,
        demoted_from_a: demoted,
        game_winner_team_id: None,
    }
}

/// The only way to a championship is for a declarer at the ace to finish first and second.
pub proof fn only_one_way_to_win(
    ew: TeamProgress,
    sn: TeamProgress,
    declarer: TeamId,
    winner: TeamId,
    win: WinType,
)
    ensures
        house_applied(ew, sn, declarer, winner, win).game_winner_team_id is Some <==> (choose_team(
            declarer,
            ew,
            sn,
        ).level == Level::A && winner == declarer && win == WinType::OneTwo),
        house_applied(ew, sn, declarer, winner, win).game_winner_team_id matches Some(champion)
            ==> champion == declarer,
{
}

/// A promotion never lowers a level and stops at the ace.
pub proof fn promotion_is_monotone(level: Level, a: int, b: int)
    requires
        0 <= a <= b,
    ensures
        level_step(level) <= level_step(level_at(level_step(level) + a)),
        level_step(level_at(level_step(level) + a)) <= level_step(level_at(level_step(level) + b)),
        level_step(level) + b >= 12 ==> level_at(level_step(level) + b) == Level::A,
        level_at(level_step(level)) == level,
{
}

/// The team that loses a hand keeps its level, unless it is demoted from the ace.
pub proof fn losers_keep_their_level(
    ew: TeamProgress,
    sn: TeamProgress,
    declarer: TeamId,
    winner: TeamId,
    win: WinType,
)
    ensures
        ({
            let out = house_applied(ew, sn, declarer, winner, win);
            let before = choose_team(other_team(winner), ew, sn);
            let after = choose_team(other_team(winner), out.progress_ew, out.progress_sn);
            after.level == before.level || (out.demoted_from_a && declarer == other_team(winner)
                && after.level == Level::Two)
        }),
{
}

/// Three hands of a declarer at the ace, none of which it completes, send it back to two with a
/// clean slate, whoever wins them, and crown no champion.
pub proof fn three_failures_demote(
    ew: TeamProgress,
    sn: TeamProgress,
    declarer: TeamId,
    first: (TeamId, WinType),
    second: (TeamId, WinType),
    third: (TeamId, WinType),
)
    requires
        choose_team(declarer, ew, sn).level == Level::A,
        choose_team(declarer, ew, sn).ace_failed_attempts == 0,
        !completes_ace(Level::A, first.0 == declarer, first.1),
        !completes_ace(Level::A, second.0 == declarer, second.1),
        !completes_ace(Level::A, third.0 == declarer, third.1),
    ensures
        ({
            let a = house_applied(ew, sn, declarer, first.0, first.1);
            let b = house_applied(a.progress_ew, a.progress_sn, declarer, second.0, second.1);
            let c = house_applied(b.progress_ew, b.progress_sn, declarer, third.0, third.1);
            let own = choose_team(declarer, c.progress_ew, c.progress_sn);
            &&& !a.demoted_from_a && !b.demoted_from_a && c.demoted_from_a
            &&& own.level == Level::Two
            &&& own.ace_failed_attempts == 0
            &&& a.game_winner_team_id is None
            &&& b.game_winner_team_id is None
            &&& c.game_winner_team_id is None
        }),
{
}

/// The count of failures at the ace stays below three.
pub proof fn failures_stay_below_three(
    ew: TeamProgress,
    sn: TeamProgress,
    declarer: TeamId,
    winner: TeamId,
    win: WinType,
)
    requires
        ew.ace_failed_attempts < 3,
        sn.ace_failed_attempts < 3,
    ensures
        house_applied(ew, sn, declarer, winner, win).progress_ew.ace_failed_attempts < 3,
        house_applied(ew, sn, declarer, winner, win).progress_sn.ace_failed_attempts < 3,
{
}

/// After every hand the next declarer is the team that won it.
pub proof fn winners_declare_next(
    ew: TeamProgress,
    sn: TeamProgress,
    declarer: TeamId,
    winner: TeamId,
    win: WinType,
    demotes: bool,
)
    ensures
        house_applied(ew, sn, declarer, winner, win).next_declarer == winner,
        hand_applied(ew, sn, declarer, winner, win, demotes).next_declarer == winner,
        house_applied(ew, sn, declarer, winner, win).declarer_team_id == declarer,
{
}

/// Levels are ordered as their cards are.
pub proof fn levels_go_by_rank(a: Level, b: Level)
    ensures
        level_step(a) < level_step(b) <==> natural(level_rank(a)) < natural(level_rank(b)),
        natural(level_rank(level_at(level_step(a) + 1))) == if a == Level::A {
            natural(level_rank(a))
        } else {
            natural(level_rank(a)) + 1
        },
{
}

/// A winner who is not a declarer at the ace goes up by three, two or one ranks, as the partner
/// comes second, third or last, but no higher than the ace. Nothing else changes for the winner.
pub proof fn winners_go_up(
    ew: TeamProgress,
    sn: TeamProgress,
    declarer: TeamId,
    winner: TeamId,
    win: WinType,
    demotes: bool,
)
    requires
        winner != declarer || choose_team(declarer, ew, sn).level != Level::A,
    ensures
        ({
            let before = choose_team(winner, ew, sn);
            let a = house_applied(ew, sn, declarer, winner, win);
            let b = hand_applied(ew, sn, declarer, winner, win, demotes);
            let after = choose_team(winner, a.progress_ew, a.progress_sn);
            let reached = natural(level_rank(before.level)) + match win {
                WinType::OneTwo => 3int,
                WinType::OneThree => 2int,
                WinType::OneFour => 1int,
            };
            &&& natural(level_rank(after.level)) == if reached > 14 {
                14
            } else {
                reached
            }
            &&& after.team == before.team
            &&& after.ace_failed_attempts == before.ace_failed_attempts
            &&& choose_team(winner, b.progress_ew, b.progress_sn) == after
        }),
{
}

/// A declarer at the ace who does not finish first and second fails once more and stays at the
/// ace; the third failure clears the count and sends it back to two. Where a loser is demoted at
/// once, losing does too. Only then is a declarer demoted.
pub proof fn failures_at_the_ace_count(
    ew: TeamProgress,
    sn: TeamProgress,
    declarer: TeamId,
    winner: TeamId,
    win: WinType,
    demotes: bool,
)
    requires
        choose_team(declarer, ew, sn).ace_failed_attempts < u32::MAX,
    ensures
        ({
            let before = choose_team(declarer, ew, sn);
            let fails = before.level == Level::A && !(winner == declarer && win == WinType::OneTwo);
            let a = house_applied(ew, sn, declarer, winner, win);
            let b = hand_applied(ew, sn, declarer, winner, win, demotes);
            let house = choose_team(declarer, a.progress_ew, a.progress_sn);
            let plain = choose_team(declarer, b.progress_ew, b.progress_sn);
            &&& a.demoted_from_a <==> fails && before.ace_failed_attempts >= 2
            &&& fails && before.ace_failed_attempts < 2 ==> house.ace_failed_attempts
                == before.ace_failed_attempts + 1 && house.level == Level::A
            &&& fails && before.ace_failed_attempts >= 2 ==> house.ace_failed_attempts == 0
                && house.level == Level::Two
            &&& !fails ==> house.ace_failed_attempts == before.ace_failed_attempts
            &&& plain.ace_failed_attempts == house.ace_failed_attempts
            &&& fails && demotes && winner != declarer ==> plain.level == Level::Two
            &&& !demotes || winner == declarer ==> plain == house
        }),
{
}

/// Where three failures give the game away they give it to the opponents of the declarer; a game
/// is won in no other way but by finishing the ace first and second.
pub proof fn three_failures_give_the_game_away(
    ew: TeamProgress,
    sn: TeamProgress,
    declarer: TeamId,
    winner: TeamId,
    win: WinType,
    demotes: bool,
)
    ensures
        ({
            let before = choose_team(declarer, ew, sn);
            let out = hand_applied(ew, sn, declarer, winner, win, demotes);
            let done = before.level == Level::A && winner == declarer && win == WinType::OneTwo;
            &&& done ==> out.winner_team == Some(declarer)
            &&& !done && before.level == Level::A && before.ace_failed_attempts >= 2 ==> (
            out.winner_team matches Some(team) && team != declarer)
            &&& !done && !(before.level == Level::A && before.ace_failed_attempts >= 2)
                ==> out.winner_team is None
        }),
{
}

/// A team that neither declares nor wins, and a champion, stay where they are.
pub proof fn others_stay(
    ew: TeamProgress,
    sn: TeamProgress,
    declarer: TeamId,
    winner: TeamId,
    win: WinType,
    demotes: bool,
)
    ensures
        ({
            let a = house_applied(ew, sn, declarer, winner, win);
            let b = hand_applied(ew, sn, declarer, winner, win, demotes);
            let crowned = choose_team(declarer, ew, sn).level == Level::A && winner == declarer
                && win == WinType::OneTwo;
            &&& winner == declarer ==> (if declarer == TeamId::Ew {
                a.progress_sn == sn && b.progress_sn == sn
            } else {
                a.progress_ew == ew && b.progress_ew == ew
            })
            &&& crowned ==> a.progress_ew == ew && a.progress_sn == sn && b.progress_ew == ew
                && b.progress_sn == sn
        }),
{
}

} // verus!
