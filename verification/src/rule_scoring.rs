//! How the rule bot weighs passing against playing.

use vstd::prelude::*;
use vstd::string::*;
use crate::json::text_of;
use crate::narration::{begins_with, starts};
use crate::params::weight_ok;
use crate::rule_features::RuleFeatures;
use crate::rule_params::RuleBotParams;
use crate::text::{same_text, texts};

verus! {

#[derive(Clone, Copy, Debug, PartialEq, Eq, Structural)]
pub enum PlayCandidate {
    Pass,
    SuggestPlay,
}

/// What speaks for passing and for playing, a point being ten to the eighteenth. The whole score
/// of playing is `suggest_score` and, of `suggest_share`, the share of small cards in the hand.
#[derive(Debug)]
pub struct ScoreTrace {
    pub pass_score: i128,
    /// The score of playing that does not go by the share of small cards.
    pub suggest_score: i128,
    /// What a hand of nothing but small cards would add to the score of playing.
    pub suggest_share: i128,
    pub reasons: Vec<String>,
}

/// The contents of a trace.
pub ghost struct Ledger {
    pub pass: int,
    pub suggest: int,
    pub share: int,
    pub reasons: Seq<Seq<char>>,
}

impl View for ScoreTrace {
    type V = Ledger;

    open spec fn view(&self) -> Ledger {
        Ledger {
            pass: self.pass_score as int,
            suggest: self.suggest_score as int,
            share: self.suggest_share as int,
            reasons: texts(self.reasons@),
        }
    }
}

impl Ledger {
    /// With more points and no reason.
    pub open spec fn gain(self, pass: int, suggest: int) -> Ledger {
        Ledger { pass: self.pass + pass, suggest: self.suggest + suggest, ..self }
    }

    /// With more points by the share of small cards.
    pub open spec fn gain_share(self, share: int) -> Ledger {
        Ledger { share: self.share + share, ..self }
    }

    /// With another reason.
    pub open spec fn because(self, reason: Seq<char>) -> Ledger {
        Ledger { reasons: self.reasons.push(reason), ..self }
    }
}

/// What a table reads, in numbers.
#[derive(Clone, Copy, Debug, PartialEq, Eq, Structural)]
pub struct Stance {
    pub partner_leads: bool,
    pub partner_sprints: bool,
    pub urgent: bool,
    /// The play on the table is a bomb.
    pub top_bomb: bool,
    /// The play on the table has the level's value.
    pub top_level: bool,
    /// The play on the table is a queen or higher.
    pub top_big: bool,
    /// Small cards of the kind on the table are in hand.
    pub can_follow_small: bool,
    pub can_pass: bool,
    pub can_play: bool,
    pub leading: bool,
    pub endgame: bool,
    /// Number of bombs in hand, cut off at three.
    pub bombs: u8,
    pub low_cards: usize,
    pub held: usize,
}

/// Hundredths of a point, which is ten to the eighteenth.
pub open spec fn flat(c: int) -> int {
    c * 10_000_000_000_000_000
}

/// Hundredths of a weight.
pub open spec fn once(c: int, a: i64) -> int {
    c * a * 100_000_000
}

/// Hundredths of the product of two weights.
pub open spec fn twice(c: int, a: i64, b: i64) -> int {
    c * a * b
}

/// Passing scores above playing, the share of small cards in the hand counted in.
pub open spec fn passing_leads(l: Ledger, s: Stance) -> bool {
    if s.held == 0 {
        l.pass > l.suggest
    } else {
        (l.pass - l.suggest) * s.held > l.share * s.low_cards
    }
}

/// The first part: a partner who leads. The flag says that this decides.
pub open spec fn partner_part(p: RuleBotParams, s: Stance, l: Ledger) -> (bool, Ledger) {
    if !s.partner_leads {
        (false, l)
    } else if s.top_bomb {
        (
            true,
            l.gain(once(1000, p.team_win_weight), -flat(1000)).because(
                "pass: NEVER override teammate's bomb"@,
            ),
        )
    } else if s.top_level {
        (
            true,
            l.gain(once(1000, p.team_win_weight), -flat(1000)).because(
                "pass: NEVER override teammate's level card"@,
            ),
        )
    } else if s.top_big {
        (
            true,
            l.gain(once(500, p.team_win_weight), -flat(500)).because(
                "pass: do not override teammate's big card"@,
            ),
        )
    } else {
        let a = if s.can_follow_small && s.can_play {
            l.gain(0, twice(300, p.low_card_dump_bias, p.team_win_weight)).because(
                "suggest: follow partner to reduce hand"@,
            )
        } else {
            let b = l.gain(once(100, p.team_win_weight), -flat(50)).because(
                "pass: prefer pass when partner leads"@,
            );
            if s.low_cards > 0 && s.can_play {
                b.gain(0, once(250, p.low_card_dump_bias)).because(
                    "suggest: can follow partner with small card"@,
                )
            } else {
                b
            }
        };
        (
            false,
            if s.partner_sprints {
                a.gain(once(200, p.second_out_weight), 0).because(
                    "pass: teammate sprinting, yield completely"@,
                )
            } else {
                a
            },
        )
    }
}

/// The second part: an opponent about to run out. The flag says that this decides.
pub open spec fn intercept_part(p: RuleBotParams, s: Stance, l: Ledger) -> (bool, Ledger) {
    if s.urgent && !s.partner_leads {
        (
            s.can_play,
            l.gain(-once(500, p.team_win_weight), once(500, p.team_win_weight)).because(
                "suggest: MUST intercept enemy sprinting"@,
            ),
        )
    } else {
        (false, l)
    }
}

/// The third part: leading for a partner about to run out.
pub open spec fn sprint_part(p: RuleBotParams, s: Stance, l: Ledger) -> Ledger {
    if s.partner_sprints && s.leading && !s.partner_leads {
        let a = l.gain(0, twice(180, p.proactive_play_bias, p.second_out_weight));
        let b = if s.low_cards > 0 {
            a.gain(0, twice(150, p.low_card_dump_bias, p.second_out_weight)).because(
                "suggest: lead small for sprinting teammate"@,
            )
        } else {
            a.gain(0, once(80, p.proactive_play_bias)).because(
                "suggest: lead to support sprinting teammate"@,
            )
        };
        b.gain(-flat(100), 0)
    } else {
        l
    }
}

/// The fourth part: keeping bombs.
pub open spec fn bomb_part(p: RuleBotParams, s: Stance, l: Ledger) -> Ledger {
    let a = if s.bombs < 3 && !s.urgent && !s.leading && !s.endgame {
        l.gain(twice(150, p.bomb_conserve_bias, p.team_win_weight), 0).because(
            "pass: bombs < 3, conserve early game"@,
        )
    } else {
        l
    };
    if s.urgent || s.bombs == 0 {
        a
    } else if s.bombs == 1 && s.endgame {
        a.gain(0, once(100, p.endgame_clear_hand_bias)).because(
            "endgame: 1 bomb, let suggest handle (small first, bomb last)"@,
        )
    } else if s.bombs == 1 {
        a.gain(once(100, p.team_win_weight), 0).because(
            "pass: only 1 bomb, slight conserve"@,
        )
    } else if !s.leading {
        a.gain(once(50, p.team_win_weight), 0).because("pass: conserve bomb for endgame"@)
    } else {
        a.because("suggest: have spare bombs, can lead"@)
    }
}

/// Nobody is about to run out and the partner does not lead.
pub open spec fn neutral(s: Stance) -> bool {
    !s.urgent && !s.partner_leads && !s.partner_sprints
}

/// The fifth part: an even table calls for playing small cards.
pub open spec fn tempo_part(p: RuleBotParams, s: Stance, l: Ledger) -> Ledger {
    let a = if neutral(s) && s.can_play {
        let b = l.gain(0, twice(100, p.proactive_play_bias, p.team_win_weight)).because(
            "suggest: proactive tempo"@,
        );
        let c = if s.low_cards > 0 {
            b.gain_share(twice(100, p.low_card_dump_bias, p.first_out_weight)).because(
                "suggest: dump small cards"@,
            )
        } else {
            b
        };
        if s.leading {
            c.gain(0, once(35, p.proactive_play_bias)).because(
                "suggest: lead and shape trick"@,
            )
        } else {
            c
        }
    } else {
        l
    };
    if s.can_pass && neutral(s) && !s.endgame {
        a.gain(-twice(100, p.pass_stall_penalty, p.team_win_weight), 0).because(
            "pass: stall penalty"@,
        )
    } else {
        a
    }
}

/// The sixth part: the endgame.
pub open spec fn endgame_part(p: RuleBotParams, s: Stance, l: Ledger) -> Ledger {
    if s.endgame && !s.partner_leads {
        if s.low_cards > 0 {
            let a = l.gain(
                0,
                twice(180, p.endgame_clear_hand_bias, p.first_out_weight),
            ).because("suggest: endgame play small cards first"@);
            if s.can_pass {
                a.gain(-once(100, p.first_out_weight), 0)
            } else {
                a
            }
        } else {
            l.gain(0, twice(60, p.endgame_clear_hand_bias, p.first_out_weight)).because(
                "suggest: endgame clear-hand (big cards only)"@,
            )
        }
    } else {
        l
    }
}

pub open spec fn blank_ledger() -> Ledger {
    Ledger { pass: 0, suggest: 0, share: 0, reasons: Seq::empty() }
}

/// The candidate and how it was weighed.
pub open spec fn weighed(p: RuleBotParams, s: Stance) -> (PlayCandidate, Ledger) {
    let (stop, a) = partner_part(p, s, blank_ledger());
    if stop {
        (PlayCandidate::Pass, a)
    } else {
        let (go, b) = intercept_part(p, s, a);
        if go {
            (PlayCandidate::SuggestPlay, b)
        } else {
            let l = endgame_part(p, s, tempo_part(p, s, bomb_part(p, s, sprint_part(p, s, b))));
            (
                if !s.can_play && s.can_pass {
                    PlayCandidate::Pass
                } else if s.can_play && !s.can_pass {
                    PlayCandidate::SuggestPlay
                } else if passing_leads(l, s) {
                    PlayCandidate::Pass
                } else {
                    PlayCandidate::SuggestPlay
                },
                l,
            )
        }
    }
}

/// A text holds another somewhere.
pub open spec fn holds_text(text: Seq<char>, part: Seq<char>) -> bool {
    exists|i: int|
        0 <= i && i + part.len() <= text.len() && #[trigger] text.subrange(i, i + part.len())
            == part
}

/// Whether a text holds another somewhere.
pub fn contains_text(text: &str, part: &str) -> (b: bool)
    ensures
        b == holds_text(text@, part@),
{
    let n: usize = text.unicode_len();
    let k: usize = part.unicode_len();
    if k > n {
        return false;
    }
    if k == 0 {
        let ghost from: int = 0;
        assert(text@.subrange(from, from + part@.len()) =~= part@);
        return true;
    }
    for i in 0..(n - k + 1)
        invariant
            n == text@.len(),
            k == part@.len(),
            1 <= k <= n,
            forall|j: int| 0 <= j < i ==> #[trigger] text@.subrange(j, j + k) != part@,
    {
        if same_text(text.substring_char(i, i + k), part) {
            assert(text@.subrange(i as int, i + k) == part@);
            return true;
        }
    }
    false
}

/// Small cards of the kind on the table are in hand.
pub open spec fn follows_small(f: RuleFeatures) -> bool {
    match text_of(f.top_play_kind) {
        Some(kind) => if holds_text(kind, "Single"@) {
            f.medium_single_count > 0
        } else if holds_text(kind, "Pair"@) {
            f.small_pair_rank_count > 0
        } else if holds_text(kind, "Triple"@) {
            f.small_triple_rank_count > 0
        } else {
            f.low_card_count > 0
        },
        None => f.low_card_count > 0,
    }
}

/// What the features say, in numbers.
pub open spec fn stance_of(p: RuleBotParams, f: RuleFeatures) -> Stance {
    Stance {
        partner_leads: f.teammate_seat is Some && text_of(f.teammate_seat) == text_of(
            f.top_play_seat,
        ),
        partner_sprints: f.teammate_remaining matches Some(n) && n <= p.partner_sprint_threshold,
        urgent: f.enemy_low_cards_urgent,
        top_bomb: text_of(f.top_play_kind) matches Some(kind) && begins_with(kind, "Bomb"@),
        top_level: f.top_play_value is Some && f.top_play_value == f.level_rank,
        top_big: f.top_play_value matches Some(v) && v >= 12,
        can_follow_small: follows_small(f),
        can_pass: f.can_pass,
        can_play: f.can_play,
        leading: f.leading_new_trick,
        endgame: f.endgame_mode,
        bombs: if f.bomb_count >= 3 {
            3
        } else {
            f.bomb_count as u8
        },
        low_cards: f.low_card_count,
        held: f.my_hand_count,
    }
}

fn same_seat(a: &Option<String>, b: &Option<String>) -> (same: bool)
    ensures
        same == (*a is Some && text_of(*a) == text_of(*b)),
{
    match (a, b) {
        (Some(x), Some(y)) => same_text(x.as_str(), y.as_str()),
        _ => false,
    }
}

fn read_stance(p: &RuleBotParams, f: &RuleFeatures) -> (s: Stance)
    ensures
        s == stance_of(*p, *f),
{
    let can_follow_small = match &f.top_play_kind {
        Some(kind) => if contains_text(kind.as_str(), "Single") {
            f.medium_single_count > 0
        } else if contains_text(kind.as_str(), "Pair") {
            f.small_pair_rank_count > 0
        } else if contains_text(kind.as_str(), "Triple") {
            f.small_triple_rank_count > 0
        } else {
            f.low_card_count > 0
        },
        None => f.low_card_count > 0,
    };
    Stance {
        partner_leads: same_seat(&f.teammate_seat, &f.top_play_seat),
        partner_sprints: match f.teammate_remaining {
            Some(n) => n <= p.partner_sprint_threshold,
            None => false,
        },
        urgent: f.enemy_low_cards_urgent,
        top_bomb: match &f.top_play_kind {
            Some(kind) => starts(kind.as_str(), "Bomb"),
            None => false,
        },
        top_level: match (f.top_play_value, f.level_rank) {
            (Some(v), Some(r)) => v == r,
            _ => false,
        },
        top_big: match f.top_play_value {
            Some(v) => v >= 12,
            None => false,
        },
        can_follow_small,
        can_pass: f.can_pass,
        can_play: f.can_play,
        leading: f.leading_new_trick,
        endgame: f.endgame_mode,
        bombs: if f.bomb_count >= 3 {
            3
        } else {
            f.bomb_count as u8
        },
        low_cards: f.low_card_count,
        held: f.my_hand_count,
    }
}

/// What one entry can amount to.
spec fn entry(x: int) -> bool {
    -1_000_000_000_000_000_000_000_000_000_000_000 <= x
        <= 1_000_000_000_000_000_000_000_000_000_000_000
}

/// What `n` entries can amount to.
spec fn entries(l: Ledger, n: int) -> bool {
    &&& -n * 1_000_000_000_000_000_000_000_000_000_000_000 <= l.pass <= n
        * 1_000_000_000_000_000_000_000_000_000_000_000
    &&& -n * 1_000_000_000_000_000_000_000_000_000_000_000 <= l.suggest <= n
        * 1_000_000_000_000_000_000_000_000_000_000_000
    &&& -n * 1_000_000_000_000_000_000_000_000_000_000_000 <= l.share <= n
        * 1_000_000_000_000_000_000_000_000_000_000_000
}

fn flat_points(c: i128) -> (x: i128)
    requires
        0 <= c <= 1000,
    ensures
        x == flat(c as int),
        entry(x as int),
        entry(-x),
{
    c * 10_000_000_000_000_000
}

fn once_points(c: i128, a: i64) -> (x: i128)
    requires
        weight_ok(a),
        0 <= c <= 1000,
    ensures
        x == once(c as int, a),
        entry(x as int),
        entry(-x),
{
    proof {
        assert(-1_000_000_000_000_000_000 <= c * a <= 1_000_000_000_000_000_000)
            by (nonlinear_arith)
            requires
                0 <= c <= 1000,
                -1_000_000_000_000_000 <= a <= 1_000_000_000_000_000,
        ;
    }
    c * a as i128 * 100_000_000
}

fn twice_points(c: i128, a: i64, b: i64) -> (x: i128)
    requires
        weight_ok(a),
        weight_ok(b),
        0 <= c <= 1000,
    ensures
        x == twice(c as int, a, b),
        entry(x as int),
        entry(-x),
{
    proof {
        assert(-1_000_000_000_000_000_000 <= c * a <= 1_000_000_000_000_000_000)
            by (nonlinear_arith)
            requires
                0 <= c <= 1000,
                -1_000_000_000_000_000 <= a <= 1_000_000_000_000_000,
        ;
        let m = c * a;
        assert(-1_000_000_000_000_000_000_000_000_000_000_000 <= m * b
            <= 1_000_000_000_000_000_000_000_000_000_000_000) by (nonlinear_arith)
            requires
                -1_000_000_000_000_000_000 <= m <= 1_000_000_000_000_000_000,
                -1_000_000_000_000_000 <= b <= 1_000_000_000_000_000,
        ;
    }
    c * a as i128 * b as i128
}

/// The product of two numbers, its last 64 bits apart.
fn wide_product(x: u128, y: u64) -> (z: (u128, u64))
    ensures
        z.0 * 0x1_0000_0000_0000_0000 + z.1 == x * y,
{
    let half: u128 = 0x1_0000_0000_0000_0000;
    let (high, low): (u128, u128) = (x / half, x % half);
    let n: u128 = y as u128;
    proof {
        assert(0 <= low * n <= (half - 1) * (half - 1) && 0 <= high * n <= (half - 1) * (half - 1))
            by (nonlinear_arith)
            requires
                0 <= low < half,
                0 <= high < half,
                0 <= n < half,
        ;
    }
    let tail: u128 = low * n;
    let top: u128 = high * n + tail / half;
    proof {
        assert((high * half + low) * n == high * n * half + low * n) by (nonlinear_arith);
        assert(x == high * half + low);
        assert(tail == (tail / half) * half + tail % half);
        assert((high * n + tail / half) * half == high * n * half + (tail / half) * half)
            by (nonlinear_arith);
    }
    (top, (tail % half) as u64)
}

/// Whether one product exceeds another.
fn product_exceeds(x: u128, y: u64, u: u128, v: u64) -> (b: bool)
    ensures
        b == (x * y > u * v),
{
    let (a, b) = wide_product(x, y);
    let (c, d) = wide_product(u, v);
    a > c || (a == c && b > d)
}

fn passing_is_ahead(l: &ScoreTrace, s: Stance) -> (b: bool)
    requires
        entries(l@, 20),
    ensures
        b == passing_leads(l@, s),
{
    let lead: i128 = l.pass_score - l.suggest_score;
    if s.held == 0 {
        return lead > 0;
    }
    let (m, n): (u64, u64) = (s.held as u64, s.low_cards as u64);
    let k: i128 = l.suggest_share;
    proof {
        lemma_signs(lead as int, m as int);
        lemma_signs(k as int, n as int);
    }
    if lead >= 0 && k >= 0 {
        product_exceeds(lead as u128, m, k as u128, n)
    } else if lead < 0 && k < 0 {
        product_exceeds((-k) as u128, n, (-lead) as u128, m)
    } else if lead < 0 {
        false
    } else {
        lead > 0 || n > 0
    }
}

proof fn lemma_signs(x: int, y: int)
    by (nonlinear_arith)
    requires
        y >= 0,
    ensures
        x >= 0 ==> x * y >= 0,
        x <= 0 ==> x * y <= 0,
        x > 0 && y > 0 ==> x * y > 0,
        x < 0 && y > 0 ==> x * y < 0,
        y == 0 ==> x * y == 0,
        x == 0 ==> x * y == 0,
        -x * y == -(x * y),
{
}

impl ScoreTrace {
    fn gain(&mut self, pass: i128, suggest: i128, Ghost(n): Ghost<int>)
        requires
            entries(old(self)@, n),
            0 <= n <= 20,
            entry(pass as int),
            entry(suggest as int),
        ensures
            final(self)@ == old(self)@.gain(pass as int, suggest as int),
            entries(final(self)@, n + 1),
    {
        self.pass_score = self.pass_score + pass;
        self.suggest_score = self.suggest_score + suggest;
    }

    fn gain_share(&mut self, share: i128, Ghost(n): Ghost<int>)
        requires
            entries(old(self)@, n),
            0 <= n <= 20,
            entry(share as int),
        ensures
            final(self)@ == old(self)@.gain_share(share as int),
            entries(final(self)@, n + 1),
    {
        self.suggest_share = self.suggest_share + share;
    }

    fn because(&mut self, reason: &str)
        ensures
            final(self)@ == old(self)@.because(reason@),
    {
        let ghost before = self.reasons@;
        let text = reason.to_owned();
        self.reasons.push(text);
        assert(texts(self.reasons@) =~= texts(before).push(text@));
    }
}

fn weigh_partner(p: &RuleBotParams, s: Stance, l: &mut ScoreTrace) -> (stop: bool)
    requires
        p.ok(),
        entries(old(l)@, 0),
    ensures
        (stop, final(l)@) == partner_part(*p, s, old(l)@),
        entries(final(l)@, 3),
{
    if !s.partner_leads {
        return false;
    }
    if s.top_bomb {
        l.gain(once_points(1000, p.team_win_weight), -flat_points(1000), Ghost(0));
        l.because("pass: NEVER override teammate's bomb");
        return true;
    }
    if s.top_level {
        l.gain(once_points(1000, p.team_win_weight), -flat_points(1000), Ghost(0));
        l.because("pass: NEVER override teammate's level card");
        return true;
    }
    if s.top_big {
        l.gain(once_points(500, p.team_win_weight), -flat_points(500), Ghost(0));
        l.because("pass: do not override teammate's big card");
        return true;
    }
    if s.can_follow_small && s.can_play {
        l.gain(0, twice_points(300, p.low_card_dump_bias, p.team_win_weight), Ghost(0));
        l.because("suggest: follow partner to reduce hand");
    } else {
        l.gain(once_points(100, p.team_win_weight), -flat_points(50), Ghost(0));
        l.because("pass: prefer pass when partner leads");
        if s.low_cards > 0 && s.can_play {
            l.gain(0, once_points(250, p.low_card_dump_bias), Ghost(1));
            l.because("suggest: can follow partner with small card");
        }
    }
    if s.partner_sprints {
        l.gain(once_points(200, p.second_out_weight), 0, Ghost(2));
        l.because("pass: teammate sprinting, yield completely");
    }
    false
}

fn weigh_intercept(p: &RuleBotParams, s: Stance, l: &mut ScoreTrace) -> (go: bool)
    requires
        p.ok(),
        entries(old(l)@, 3),
    ensures
        (go, final(l)@) == intercept_part(*p, s, old(l)@),
        entries(final(l)@, 4),
{
    if s.urgent && !s.partner_leads {
        let x: i128 = once_points(500, p.team_win_weight);
        l.gain(-x, x, Ghost(3));
        l.because("suggest: MUST intercept enemy sprinting");
        s.can_play
    } else {
        false
    }
}

fn weigh_sprint(p: &RuleBotParams, s: Stance, l: &mut ScoreTrace)
    requires
        p.ok(),
        entries(old(l)@, 4),
    ensures
        final(l)@ == sprint_part(*p, s, old(l)@),
        entries(final(l)@, 7),
{
    if s.partner_sprints && s.leading && !s.partner_leads {
        l.gain(0, twice_points(180, p.proactive_play_bias, p.second_out_weight), Ghost(4));
        if s.low_cards > 0 {
            l.gain(0, twice_points(150, p.low_card_dump_bias, p.second_out_weight), Ghost(5));
            l.because("suggest: lead small for sprinting teammate");
        } else {
            l.gain(0, once_points(80, p.proactive_play_bias), Ghost(5));
            l.because("suggest: lead to support sprinting teammate");
        }
        l.gain(-flat_points(100), 0, Ghost(6));
    }
}

fn weigh_bombs(p: &RuleBotParams, s: Stance, l: &mut ScoreTrace)
    requires
        p.ok(),
        entries(old(l)@, 7),
    ensures
        final(l)@ == bomb_part(*p, s, old(l)@),
        entries(final(l)@, 9),
{
    if s.bombs < 3 && !s.urgent && !s.leading && !s.endgame {
        l.gain(twice_points(150, p.bomb_conserve_bias, p.team_win_weight), 0, Ghost(7));
        l.because("pass: bombs < 3, conserve early game");
    }
    if s.urgent || s.bombs == 0 {
        return ;
    }
    if s.bombs == 1 && s.endgame {
        l.gain(0, once_points(100, p.endgame_clear_hand_bias), Ghost(8));
        l.because("endgame: 1 bomb, let suggest handle (small first, bomb last)");
    } else if s.bombs == 1 {
        l.gain(once_points(100, p.team_win_weight), 0, Ghost(8));
        l.because("pass: only 1 bomb, slight conserve");
    } else if !s.leading {
        l.gain(once_points(50, p.team_win_weight), 0, Ghost(8));
        l.because("pass: conserve bomb for endgame");
    } else {
        l.because("suggest: have spare bombs, can lead");
    }
}

fn weigh_tempo(p: &RuleBotParams, s: Stance, l: &mut ScoreTrace)
    requires
        p.ok(),
        entries(old(l)@, 9),
    ensures
        final(l)@ == tempo_part(*p, s, old(l)@),
        entries(final(l)@, 13),
{
    let even = !s.urgent && !s.partner_leads && !s.partner_sprints;
    if even && s.can_play {
        l.gain(0, twice_points(100, p.proactive_play_bias, p.team_win_weight), Ghost(9));
        l.because("suggest: proactive tempo");
        if s.low_cards > 0 {
            l.gain_share(twice_points(100, p.low_card_dump_bias, p.first_out_weight), Ghost(10));
            l.because("suggest: dump small cards");
        }
        if s.leading {
            l.gain(0, once_points(35, p.proactive_play_bias), Ghost(11));
            l.because("suggest: lead and shape trick");
        }
    }
    if s.can_pass && even && !s.endgame {
        l.gain(-twice_points(100, p.pass_stall_penalty, p.team_win_weight), 0, Ghost(12));
        l.because("pass: stall penalty");
    }
}

fn weigh_endgame(p: &RuleBotParams, s: Stance, l: &mut ScoreTrace)
    requires
        p.ok(),
        entries(old(l)@, 13),
    ensures
        final(l)@ == endgame_part(*p, s, old(l)@),
        entries(final(l)@, 15),
{
    if s.endgame && !s.partner_leads {
        if s.low_cards > 0 {
            l.gain(
                0,
                twice_points(180, p.endgame_clear_hand_bias, p.first_out_weight),
                Ghost(13),
            );
            l.because("suggest: endgame play small cards first");
            if s.can_pass {
                l.gain(-once_points(100, p.first_out_weight), 0, Ghost(14));
            }
        } else {
            l.gain(
                0,
                twice_points(60, p.endgame_clear_hand_bias, p.first_out_weight),
                Ghost(13),
            );
            l.because("suggest: endgame clear-hand (big cards only)");
        }
    }
}

/// Weighs passing against playing. A partner's bomb, card of the level or high card is never
/// taken over; an opponent about to run out is stopped if possible.
pub fn choose_play_candidate(params: &RuleBotParams, f: &RuleFeatures) -> (choice: (
    PlayCandidate,
    ScoreTrace,
))
    requires
        params.ok(),
    ensures
        (choice.0, choice.1@) == weighed(*params, stance_of(*params, *f)),
{
    let s = read_stance(params, f);
    let mut trace = ScoreTrace { pass_score: 0, suggest_score: 0, suggest_share: 0, reasons: Vec::new() };
    assert(trace@.reasons =~= blank_ledger().reasons);
    if weigh_partner(params, s, &mut trace) {
        return (PlayCandidate::Pass, trace);
    }
    if weigh_intercept(params, s, &mut trace) {
        return (PlayCandidate::SuggestPlay, trace);
    }
    weigh_sprint(params, s, &mut trace);
    weigh_bombs(params, s, &mut trace);
    weigh_tempo(params, s, &mut trace);
    weigh_endgame(params, s, &mut trace);
    let picked = if !s.can_play && s.can_pass {
        PlayCandidate::Pass
    } else if s.can_play && !s.can_pass {
        PlayCandidate::SuggestPlay
    } else if passing_is_ahead(&trace, s) {
        PlayCandidate::Pass
    } else {
        PlayCandidate::SuggestPlay
    };
    (picked, trace)
}

/// The rule bot never takes over a partner's bomb, card of the level or high card.
pub proof fn partner_is_never_overridden(p: RuleBotParams, s: Stance)
    requires
        s.partner_leads,
        s.top_bomb || s.top_level || s.top_big,
    ensures
        weighed(p, s).0 == PlayCandidate::Pass,
{
}

/// The rule bot answers an opponent about to run out whenever it can.
pub proof fn sprinting_enemy_is_stopped(p: RuleBotParams, s: Stance)
    requires
        s.urgent,
        !s.partner_leads,
        s.can_play,
    ensures
        weighed(p, s).0 == PlayCandidate::SuggestPlay,
{
}

/// What speaks for either without a decision by the partner's play or an opponent about to run
/// out.
proof fn lemma_weighed(p: RuleBotParams, s: Stance)
    requires
        !s.partner_leads || !(s.top_bomb || s.top_level || s.top_big),
        s.partner_leads || !s.urgent || !s.can_play,
    ensures
        weighed(p, s).1 == endgame_part(
            p,
            s,
            tempo_part(
                p,
                s,
                bomb_part(
                    p,
                    s,
                    sprint_part(p, s, intercept_part(p, s, partner_part(p, s, blank_ledger()).1).1),
                ),
            ),
        ),
{
}

/// Where nothing decides at once the greater score does: of a bot that may do either, passing wins
/// where it scores above playing, the share of small cards in the hand counted in; a bot that may
/// do only one thing does it.
pub proof fn greater_score_decides(p: RuleBotParams, s: Stance)
    requires
        !s.partner_leads || !(s.top_bomb || s.top_level || s.top_big),
        s.partner_leads || !s.urgent || !s.can_play,
    ensures
        ({
            let l = weighed(p, s).1;
            let passes = weighed(p, s).0 == PlayCandidate::Pass;
            &&& s.can_pass && !s.can_play ==> passes
            &&& s.can_play && !s.can_pass ==> !passes
            &&& s.can_play == s.can_pass && s.held == 0 ==> (passes <==> l.pass > l.suggest)
            &&& s.can_play == s.can_pass && s.held > 0 ==> (passes <==> l.pass * s.held > l.suggest
                * s.held + l.share * s.low_cards)
        }),
{
    let l = weighed(p, s).1;
    assert((l.pass - l.suggest) * s.held == l.pass * s.held - l.suggest * s.held)
        by (nonlinear_arith);
}

/// Below the queen a partner's play is followed with a small card where there is one of its kind:
/// three times the weight for shedding times that of the team's win speaks for it; otherwise the
/// team's win speaks for a pass and half a point against a play, and any small card for a play
/// with two and a half times the weight for shedding.
pub proof fn partner_is_followed_with_small_cards(p: RuleBotParams, s: Stance, t: Stance)
    requires
        s.partner_leads,
        !(s.top_bomb || s.top_level || s.top_big),
        s.can_play,
        s.can_follow_small,
        s.low_cards > 0,
        t == (Stance { can_follow_small: false, ..s }),
    ensures
        ({
            let a = weighed(p, s).1;
            let b = weighed(p, t).1;
            &&& a.suggest - b.suggest == 300 * p.low_card_dump_bias * p.team_win_weight - 250
                * p.low_card_dump_bias * 100_000_000 + 500_000_000_000_000_000
            &&& b.pass - a.pass == 100 * p.team_win_weight * 100_000_000
            &&& a.share == b.share
        }),
{
    lemma_weighed(p, s);
    lemma_weighed(p, t);
}

/// A partner about to run out who leads is yielded to: twice the weight for going out second
/// speaks for a pass.
pub proof fn running_partner_is_yielded_to(p: RuleBotParams, s: Stance, t: Stance)
    requires
        s.partner_leads,
        !(s.top_bomb || s.top_level || s.top_big),
        s.partner_sprints,
        t == (Stance { partner_sprints: false, ..s }),
    ensures
        weighed(p, s).1.pass - weighed(p, t).1.pass == 200 * p.second_out_weight * 100_000_000,
        weighed(p, s).1.suggest == weighed(p, t).1.suggest,
        weighed(p, s).1.share == weighed(p, t).1.share,
{
    lemma_weighed(p, s);
    lemma_weighed(p, t);
}

/// Before the endgame a bot that does not lead keeps fewer than three bombs: one and a half times
/// the weight for keeping times that of the team's win speaks for a pass, and with two of them
/// half the team's win more, with one the whole.
pub proof fn few_bombs_are_kept(p: RuleBotParams, s: Stance, t: Stance)
    requires
        !s.partner_leads,
        !s.urgent,
        !s.leading,
        !s.endgame,
        t == (Stance { bombs: 3, ..s }),
        s.bombs <= 2,
    ensures
        ({
            let a = weighed(p, s).1;
            let b = weighed(p, t).1;
            let keep = 150 * p.bomb_conserve_bias * p.team_win_weight;
            &&& a.suggest == b.suggest && a.share == b.share
            &&& s.bombs == 0 ==> a.pass - b.pass == keep - 50 * p.team_win_weight * 100_000_000
            &&& s.bombs == 1 ==> a.pass - b.pass == keep + 50 * p.team_win_weight * 100_000_000
            &&& s.bombs == 2 ==> a.pass - b.pass == keep
        }),
{
    lemma_weighed(p, s);
    lemma_weighed(p, t);
}

/// In the endgame the only bomb speaks for a play, with the weight for emptying the hand.
pub proof fn only_bomb_goes_in_the_endgame(p: RuleBotParams, s: Stance, t: Stance)
    requires
        !s.partner_leads,
        !s.urgent,
        s.endgame,
        s.bombs == 1,
        t == (Stance { bombs: 0, ..s }),
    ensures
        weighed(p, s).1.suggest - weighed(p, t).1.suggest == 100 * p.endgame_clear_hand_bias
            * 100_000_000,
        weighed(p, s).1.pass == weighed(p, t).1.pass,
        weighed(p, s).1.share == weighed(p, t).1.share,
{
    lemma_weighed(p, s);
    lemma_weighed(p, t);
}

/// At an even table a bot that may play has reason to: the weight for playing on times that of the
/// team's win, the weight for shedding times that of going out first as far as the hand is of
/// small cards, and where it leads a third of the weight for playing on and a little more.
pub proof fn even_tables_call_for_play(p: RuleBotParams, s: Stance, t: Stance)
    requires
        !s.partner_leads,
        !s.urgent,
        !s.partner_sprints,
        !s.endgame,
        s.can_play,
        t == (Stance { can_play: false, ..s }),
    ensures
        ({
            let a = weighed(p, s).1;
            let b = weighed(p, t).1;
            &&& a.pass == b.pass
            &&& a.suggest - b.suggest == 100 * p.proactive_play_bias * p.team_win_weight + if s.leading {
                35 * p.proactive_play_bias * 100_000_000
            } else {
                0
            }
            &&& a.share - b.share == if s.low_cards > 0 {
                100 * p.low_card_dump_bias * p.first_out_weight
            } else {
                0
            }
        }),
{
    lemma_weighed(p, s);
    lemma_weighed(p, t);
}

/// Passing at an even table before the endgame is stalling and costs its price times the team's
/// win.
pub proof fn stalling_costs(p: RuleBotParams, s: Stance, t: Stance)
    requires
        !s.partner_leads,
        !s.urgent,
        !s.partner_sprints,
        !s.endgame,
        s.can_pass,
        t == (Stance { can_pass: false, ..s }),
    ensures
        weighed(p, t).1.pass - weighed(p, s).1.pass == 100 * p.pass_stall_penalty
            * p.team_win_weight,
        weighed(p, s).1.suggest == weighed(p, t).1.suggest,
{
    lemma_weighed(p, s);
    lemma_weighed(p, t);
}

/// A bot that leads for a partner about to run out has reason to play, with a small card most: for
/// that speak the weights for playing on and for shedding, each times that of going out second, and
/// a point speaks against a pass.
pub proof fn running_partner_is_led_to(p: RuleBotParams, s: Stance, t: Stance)
    requires
        !s.partner_leads,
        s.partner_sprints,
        s.leading,
        !s.urgent,
        !s.endgame,
        t == (Stance { partner_sprints: false, can_play: false, can_pass: false, ..s }),
    ensures
        ({
            let a = weighed(p, s).1;
            let b = weighed(p, t).1;
            &&& a.pass - b.pass == -1_000_000_000_000_000_000
            &&& a.suggest - b.suggest == 180 * p.proactive_play_bias * p.second_out_weight
                + if s.low_cards > 0 {
                150 * p.low_card_dump_bias * p.second_out_weight
            } else {
                80 * p.proactive_play_bias * 100_000_000
            }
        }),
{
    lemma_weighed(p, s);
    lemma_weighed(p, t);
}

/// In the endgame the weight for emptying the hand times that of going out first speaks for a
/// play: nearly twice where there are small cards, which also takes the weight for going out first
/// off a pass, and a little over half where there are none.
pub proof fn endgames_call_for_play(p: RuleBotParams, s: Stance, t: Stance)
    requires
        !s.partner_leads,
        s.endgame,
        !s.urgent,
        s.partner_sprints,
        !s.leading,
        s.bombs == 0,
        t == (Stance { endgame: false, ..s }),
    ensures
        ({
            let a = weighed(p, s).1;
            let b = weighed(p, t).1;
            let both = p.endgame_clear_hand_bias * p.first_out_weight;
            &&& a.suggest - b.suggest == (if s.low_cards > 0 {
                180 * both
            } else {
                60 * both
            })
            &&& b.pass - a.pass == 150 * p.bomb_conserve_bias * p.team_win_weight + if s.low_cards > 0
                && s.can_pass {
                100 * p.first_out_weight * 100_000_000
            } else {
                0
            }
        }),
{
    lemma_weighed(p, s);
    lemma_weighed(p, t);
    let e = p.endgame_clear_hand_bias;
    let f = p.first_out_weight;
    assert(180 * e * f == 180 * (e * f) && 60 * e * f == 60 * (e * f)) by (nonlinear_arith);
}

/// What a bot reads off a table: the partner leads where the play on the table is the partner's; a
/// partner is about to run out at or below the threshold; queens and higher are big.
pub proof fn stances_read_the_table(p: RuleBotParams, f: RuleFeatures)
    ensures
        stance_of(p, f).partner_leads <==> (text_of(f.teammate_seat) matches Some(a) && text_of(
            f.top_play_seat,
        ) == Some(a)),
        f.teammate_remaining matches Some(n) ==> (stance_of(p, f).partner_sprints <==> n
            <= p.partner_sprint_threshold),
        f.top_play_value matches Some(v) ==> (stance_of(p, f).top_big <==> v > 11),
        f.top_play_value matches Some(v) ==> (stance_of(p, f).top_level <==> f.level_rank == Some(
            v,
        )),
        stance_of(p, f).bombs == 0 <==> f.bomb_count == 0,
        stance_of(p, f).bombs >= 3 <==> f.bomb_count >= 3,
{
}

/// What decides at once does so by a wide margin: ten times the team's win and ten points for a
/// partner's bomb or card of the level, five times for a high card; five times the team's win either
/// way against an opponent about to run out.
pub proof fn what_decides_at_once_weighs_most(p: RuleBotParams, s: Stance)
    ensures
        ({
            let l = weighed(p, s).1;
            let win = p.team_win_weight * 100_000_000;
            let point = 1_000_000_000_000_000_000int;
            &&& s.partner_leads && (s.top_bomb || s.top_level) ==> l.pass == 1000 * win && l.suggest
                == -10 * point && l.share == 0
            &&& s.partner_leads && !s.top_bomb && !s.top_level && s.top_big ==> l.pass == 500 * win
                && l.suggest == -5 * point && l.share == 0
            &&& !s.partner_leads && s.urgent && s.can_play ==> l.pass == -500 * win && l.suggest == 500
                * win && l.share == 0
        }),
{
}

/// A part of the weighing gives a reason exactly where it has something to say.
pub proof fn points_come_with_reasons(p: RuleBotParams, s: Stance, l: Ledger)
    ensures
        endgame_part(p, s, l).reasons.len() > l.reasons.len() <==> s.endgame && !s.partner_leads,
        sprint_part(p, s, l).reasons.len() > l.reasons.len() <==> s.partner_sprints && s.leading
            && !s.partner_leads,
        intercept_part(p, s, l).1.reasons.len() > l.reasons.len() <==> s.urgent && !s.partner_leads,
        partner_part(p, s, l).1.reasons.len() > l.reasons.len() <==> s.partner_leads,
{
}

} // verus!
