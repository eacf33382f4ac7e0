//! How the advanced bot decides between a play and a pass.

use vstd::prelude::*;
use vstd::string::*;
use crate::cards::{
    Card, Rank, Suit, card_ok, is_joker_rank, natural, rank_text, suit_char, symbol_text,
};
use crate::combination_parser::{rank_at, rank_from_value};
use crate::domain::{PerSeat, Seat, partner_of, seat_text};
use crate::follow_decision::top_has_joker;
use crate::game_types::{Action, PlayerAction};
use crate::hand_tracker::{HandTracker, Seen};
use crate::human_stats::{rank_text_number, rank_text_value};
use crate::json::{
    items_in, items_of, json_field_text, json_string_text, nested_text, number_in, number_of,
    read_field, read_nested, read_string, string_in, string_of, strings_among, strings_of, text_of,
};
use crate::movegen_laws::held;
use crate::narration::{begins_with, starts};
use crate::params::{AdvancedBotParams, UNIT, WEIGHT_LIMIT, balanced};
use crate::play_context::{Chance, Odds, first_opponent, never, second_opponent};
use crate::prob_reasoner::ProbabilisticReasoner;
use crate::record_learner::is_listed;
use crate::rule_features::{read_top_field, top_field};
use crate::text::{same_text, texts};
use crate::training::starting_params;

verus! {

/// What a bot does: an action of its own, or the one that is suggested.
#[derive(Debug)]
pub enum BotDecision {
    Action(PlayerAction),
    UseSuggest,
}

/// What is reported of a table to the player to move.
#[derive(Debug)]
pub struct AdvancedTable {
    pub legal_actions: Vec<String>,
    pub seat: Option<String>,
    pub teammate_seat: Option<String>,
    pub top_seat: Option<String>,
    pub hand_cards: Vec<String>,
    pub hand_level: Option<String>,
    /// Cards of the play on the table; nothing for what is no text.
    pub top_cards: Vec<Option<String>>,
    pub top_kind: Option<String>,
    /// Number of cards at each seat, in table order, where it is reported.
    pub left: PerSeat<u64>,
}

/// The rank that a text shows, in any of the ways in which jokers are written.
pub open spec fn rank_loosely(text: Seq<char>) -> Option<Rank> {
    match rank_text_value(text) {
        None => None,
        Some(v) => Some(
            if v == 16 {
                Rank::Two
            } else if v == 17 {
                Rank::BlackJoker
            } else if v == 18 {
                Rank::RedJoker
            } else {
                rank_at(v as int)
            },
        ),
    }
}

/// The suit that a character shows.
pub open spec fn suit_loosely(c: char) -> Option<Suit> {
    if c == '♠' {
        Some(Suit::Spades)
    } else if c == '♥' {
        Some(Suit::Hearts)
    } else if c == '♦' {
        Some(Suit::Diamonds)
    } else if c == '♣' {
        Some(Suit::Clubs)
    } else if c == '🃏' {
        Some(Suit::Joker)
    } else {
        None
    }
}

/// The card that a text shows: a suit, then a rank.
pub open spec fn card_loosely(text: Seq<char>) -> Option<Card> {
    if text.len() == 0 {
        None
    } else {
        match (suit_loosely(text[0]), rank_loosely(text.skip(1))) {
            (Some(suit), Some(rank)) => Some(Card { suit, rank }),
            _ => None,
        }
    }
}

/// The cards that the first `n` texts show; what shows none is left out.
pub open spec fn cards_loosely(list: Seq<Seq<char>>, n: int) -> Seq<Card>
    decreases n,
{
    if n <= 0 {
        Seq::empty()
    } else {
        match card_loosely(list[n - 1]) {
            Some(card) => cards_loosely(list, n - 1).push(card),
            None => cards_loosely(list, n - 1),
        }
    }
}

/// The cards that the first `n` of some texts show, where there is a text.
pub open spec fn cards_shown(list: Seq<Option<String>>, n: int) -> Seq<Card>
    decreases n,
{
    if n <= 0 {
        Seq::empty()
    } else {
        let before = cards_shown(list, n - 1);
        match list[n - 1] {
            Some(text) => match card_loosely(text@) {
                Some(card) => before.push(card),
                None => before,
            },
            None => before,
        }
    }
}

/// The seat that a letter names.
pub open spec fn seat_named(text: Option<Seq<char>>) -> Option<Seat> {
    match text {
        None => None,
        Some(t) => if t == seat_text(Seat::E) {
            Some(Seat::E)
        } else if t == seat_text(Seat::S) {
            Some(Seat::S)
        } else if t == seat_text(Seat::W) {
            Some(Seat::W)
        } else if t == seat_text(Seat::N) {
            Some(Seat::N)
        } else {
            None
        },
    }
}

impl AdvancedTable {
    /// The own seat, east where none is named.
    pub open spec fn me(self) -> Seat {
        match seat_named(text_of(self.seat)) {
            Some(s) => s,
            None => Seat::E,
        }
    }

    /// The partner's seat, west where none is named.
    pub open spec fn partner(self) -> Seat {
        match seat_named(text_of(self.teammate_seat)) {
            Some(s) => s,
            None => Seat::W,
        }
    }

    /// Whose play lies on the table.
    pub open spec fn top(self) -> Option<Seat> {
        seat_named(text_of(self.top_seat))
    }

    /// The own hand.
    pub open spec fn hand(self) -> Seq<Card> {
        cards_loosely(texts(self.hand_cards@), self.hand_cards@.len() as int)
    }

    /// The cards of the play on the table.
    pub open spec fn shown(self) -> Seq<Card> {
        cards_shown(self.top_cards@, self.top_cards@.len() as int)
    }

    /// The level's rank, two where no level is named.
    pub open spec fn level(self) -> Option<Rank> {
        rank_loosely(
            match self.hand_level {
                Some(t) => t@,
                None => "2"@,
            },
        )
    }

    /// The rank of the first card of the play on the table.
    pub open spec fn top_rank(self) -> Option<Rank> {
        if self.top_cards@.len() == 0 {
            None
        } else {
            match self.top_cards@[0] {
                Some(t) => match card_loosely(t@) {
                    Some(card) => Some(card.rank),
                    None => None,
                },
                None => None,
            }
        }
    }

    pub open spec fn may_pass(self) -> bool {
        texts(self.legal_actions@).contains("pass"@)
    }

    pub open spec fn may_play(self) -> bool {
        texts(self.legal_actions@).contains("play"@)
    }

    /// The play on the table is a bomb.
    pub open spec fn top_is_bomb(self) -> bool {
        self.top_kind matches Some(kind) && begins_with(kind@, "Bomb"@)
    }

    /// The play on the table has a joker.
    pub open spec fn top_has_joker(self) -> bool {
        (self.top_rank() matches Some(r) && is_joker_rank(r)) || exists|i: int|
            0 <= i < self.top_cards@.len() && #[trigger] joker_text(self.top_cards@[i])
    }
}

pub open spec fn joker_text(text: Option<String>) -> bool {
    text matches Some(t) && t@.contains('🃏')
}

/// What has been seen, with the numbers of cards that are reported.
pub open spec fn recounted(s: Seen, left: PerSeat<u64>) -> Seen {
    let e = match left.e {
        Some(n) => s.with_count(Seat::E, n as usize),
        None => s,
    };
    let so = match left.s {
        Some(n) => e.with_count(Seat::S, n as usize),
        None => e,
    };
    let w = match left.w {
        Some(n) => so.with_count(Seat::W, n as usize),
        None => so,
    };
    match left.n {
        Some(n) => w.with_count(Seat::N, n as usize),
        None => w,
    }
}

/// What has been seen after a look at the table: a new hand is taken in where nothing was seen
/// before or the own hand has another size; then the numbers of cards; then the play on the
/// table, once.
pub open spec fn observed(s: Seen, t: AdvancedTable) -> Seen {
    let held = if s.known == Set::<Card>::empty() || s.left_at(t.me()) != t.hand().len() {
        Seen::fresh(t.me()).dealt(t.hand(), t.level())
    } else {
        s
    };
    let counted = recounted(held, t.left);
    match t.top() {
        Some(seat) => if t.shown().len() > 0 && !counted.played.contains((seat, t.shown())) {
            counted.after_play(seat, t.shown())
        } else {
            counted
        },
        None => counted,
    }
}

/// A chance below a part of [`UNIT`].
pub open spec fn chance_below(o: Odds, part: int) -> bool {
    o.num * UNIT < part * o.den
}

/// A chance above a part of [`UNIT`].
pub open spec fn chance_above(o: Odds, part: int) -> bool {
    o.num * UNIT > part * o.den
}

/// A partner's play that is never beaten: a bomb, a level card, a joker, or a card from the
/// queen up.
pub open spec fn yields(t: AdvancedTable) -> bool {
    t.top_is_bomb() || t.top_rank() == t.level() || t.top_has_joker() || (t.top_rank() matches Some(
        r,
    ) && (r == Rank::Two || r == Rank::Q || r == Rank::K || r == Rank::A))
}

/// The partner's play lies on the table.
pub open spec fn partner_leads(t: AdvancedTable) -> bool {
    t.top() == Some(t.partner())
}

/// An opponent's play lies on the table.
pub open spec fn enemy_has_lead(t: AdvancedTable) -> bool {
    t.top() is Some && !partner_leads(t)
}

/// Points for a pass and for a play by who leads.
pub open spec fn points_by_lead(p: AdvancedBotParams, s: Seen, t: AdvancedTable) -> (int, int) {
    let follow = match t.top_rank() {
        Some(r) => s.others_rank_odds(r),
        None => never(),
    };
    if partner_leads(t) {
        if chance_below(follow, p.prob_threshold_for_intercept as int) {
            (0, 2 * p.low_card_dump_bias)
        } else {
            (p.yield_to_partner_bias as int, 0)
        }
    } else if enemy_has_lead(t) {
        (
            if chance_above(s.enemy_bomb_odds(t.me()), p.prob_threshold_for_bomb as int) {
                2 * p.bomb_conserve_bias
            } else {
                0
            },
            2 * UNIT + (if s.left_at(first_opponent(t.me())) <= p.enemy_low_cards_threshold
                || s.left_at(second_opponent(t.me())) <= p.enemy_low_cards_threshold {
                p.bomb_aggression_when_enemy_low as int
            } else {
                0
            }) + (if s.left_at(t.me()) <= p.endgame_hand_count_threshold {
                p.endgame_clear_hand_bias as int
            } else {
                0
            }),
        )
    } else {
        (0, p.proactive_play_bias as int)
    }
}

/// Points for a pass.
pub open spec fn points_for_pass(p: AdvancedBotParams, s: Seen, t: AdvancedTable) -> int {
    let win = s.win_odds(t.me());
    points_by_lead(p, s, t).0 + (if !enemy_has_lead(t) && s.left_at(partner_of(t.me()))
        <= p.partner_sprint_threshold {
        2 * p.second_out_weight
    } else {
        0
    }) + (if !enemy_has_lead(t) && 10 * win.num > 7 * win.den {
        UNIT as int
    } else {
        0
    })
}

/// Points for a play.
pub open spec fn points_for_play(p: AdvancedBotParams, s: Seen, t: AdvancedTable) -> int {
    let win = s.win_odds(t.me());
    points_by_lead(p, s, t).1 + (if !(!enemy_has_lead(t) && 10 * win.num > 7 * win.den) && 10
        * win.num < 3 * win.den {
        3 * UNIT / 2
    } else {
        0
    })
}

/// A reason, where it holds.
pub open spec fn noted(holds: bool, reason: Seq<char>) -> Seq<Seq<char>> {
    if holds {
        seq![reason]
    } else {
        Seq::empty()
    }
}

/// What speaks for either by who leads, in words.
pub open spec fn reasons_by_lead(p: AdvancedBotParams, s: Seen, t: AdvancedTable) -> Seq<Seq<char>> {
    let follow = match t.top_rank() {
        Some(r) => s.others_rank_odds(r),
        None => never(),
    };
    if partner_leads(t) {
        if chance_below(follow, p.prob_threshold_for_intercept as int) {
            seq!["play: safe to follow partner"@]
        } else {
            seq!["pass: opponent likely can follow"@]
        }
    } else if enemy_has_lead(t) {
        noted(
            chance_above(s.enemy_bomb_odds(t.me()), p.prob_threshold_for_bomb as int),
            "pass: opponent likely has bomb"@,
        ) + noted(
            s.left_at(first_opponent(t.me())) <= p.enemy_low_cards_threshold || s.left_at(
                second_opponent(t.me()),
            ) <= p.enemy_low_cards_threshold,
            "play: enemy sprinting, need to intercept"@,
        ) + noted(
            s.left_at(t.me()) <= p.endgame_hand_count_threshold,
            "play: endgame, need to clear"@,
        )
    } else {
        seq!["play: leading, be proactive"@]
    }
}

/// What speaks for either, in words, in the order in which it is weighed.
pub open spec fn reasons_for(p: AdvancedBotParams, s: Seen, t: AdvancedTable) -> Seq<Seq<char>> {
    let win = s.win_odds(t.me());
    let ahead = !enemy_has_lead(t) && 10 * win.num > 7 * win.den;
    reasons_by_lead(p, s, t) + noted(
        !enemy_has_lead(t) && s.left_at(partner_of(t.me())) <= p.partner_sprint_threshold,
        "pass: teammate sprinting, yield"@,
    ) + noted(ahead, "pass: team advantage, conserve cards"@) + noted(
        !ahead && 10 * win.num < 3 * win.den,
        "play: team disadvantage, need to take control"@,
    )
}

/// How the bot weighed a pass against a play: points in parts of [`UNIT`], and the reasons.
#[derive(Debug)]
pub struct Weighing {
    pub pass_score: i64,
    pub play_score: i64,
    pub reasons: Vec<String>,
}

/// The points and the reasons of a weighing.
pub open spec fn is_weighing(w: Weighing, p: AdvancedBotParams, s: Seen, t: AdvancedTable) -> bool {
    &&& w.pass_score == points_for_pass(p, s, t)
    &&& w.play_score == points_for_play(p, s, t)
    &&& texts(w.reasons@) == reasons_for(p, s, t)
}

/// Whether the bot weighs a pass against a play: where it looks, and neither its last card nor a
/// partner's play that is never beaten decides.
pub open spec fn weighs(t: AdvancedTable) -> bool {
    looks(t) && !(t.may_pass() && t.may_play() && t.hand().len() == 1) && !(partner_leads(t)
        && yields(t))
}

/// Whether the bot looks at the table before it decides: where it has a choice, or where nothing
/// is said of what it may do.
pub open spec fn looks(t: AdvancedTable) -> bool {
    t.may_pass() == t.may_play()
}

/// The bot passes, given what it has seen.
pub open spec fn bot_passes(p: AdvancedBotParams, s: Seen, t: AdvancedTable) -> bool {
    if t.may_pass() && !t.may_play() {
        true
    } else if t.may_play() && !t.may_pass() {
        false
    } else if t.may_pass() && t.may_play() && t.hand().len() == 1 {
        false
    } else if partner_leads(t) && yields(t) {
        true
    } else {
        points_for_pass(p, s, t) > points_for_play(p, s, t)
    }
}

fn parse_rank(text: &str) -> (rank: Option<Rank>)
    ensures
        rank == rank_loosely(text@),
{
    match rank_text_number(text) {
        None => None,
        Some(v) => Some(
            if v == 16 {
                Rank::Two
            } else if v == 17 {
                Rank::BlackJoker
            } else if v == 18 {
                Rank::RedJoker
            } else {
                rank_from_value(v as u8)
            },
        ),
    }
}

fn parse_card(text: &str) -> (card: Option<Card>)
    ensures
        card == card_loosely(text@),
{
    let n: usize = text.unicode_len();
    if n == 0 {
        return None;
    }
    let c = text.get_char(0);
    let suit = if c == '♠' {
        Suit::Spades
    } else if c == '♥' {
        Suit::Hearts
    } else if c == '♦' {
        Suit::Diamonds
    } else if c == '♣' {
        Suit::Clubs
    } else if c == '🃏' {
        Suit::Joker
    } else {
        return None;
    };
    let rest = text.substring_char(1, n);
    assert(rest@ =~= text@.skip(1));
    match parse_rank(rest) {
        Some(rank) => Some(Card { suit, rank }),
        None => None,
    }
}

fn parse_hand(list: &Vec<String>) -> (cards: Vec<Card>)
    ensures
        cards@ == cards_loosely(texts(list@), list@.len() as int),
        cards@.len() <= list@.len(),
{
    let mut cards: Vec<Card> = Vec::new();
    for i in 0..list.len()
        invariant
            cards@ == cards_loosely(texts(list@), i as int),
            cards@.len() <= i,
    {
        assert(texts(list@)[i as int] == list@[i as int]@);
        if let Some(card) = parse_card(list[i].as_str()) {
            cards.push(card);
        }
    }
    cards
}

fn parse_top(list: &Vec<Option<String>>) -> (cards: Vec<Card>)
    ensures
        cards@ == cards_shown(list@, list@.len() as int),
{
    let mut cards: Vec<Card> = Vec::new();
    for i in 0..list.len()
        invariant
            cards@ == cards_shown(list@, i as int),
    {
        if let Some(text) = &list[i] {
            if let Some(card) = parse_card(text.as_str()) {
                cards.push(card);
            }
        }
    }
    cards
}

fn parse_seat(text: &Option<String>) -> (seat: Option<Seat>)
    ensures
        seat == seat_named(text_of(*text)),
{
    match text {
        None => None,
        Some(t) => {
            let t = t.as_str();
            if same_text(t, Seat::E.as_str()) {
                Some(Seat::E)
            } else if same_text(t, Seat::S.as_str()) {
                Some(Seat::S)
            } else if same_text(t, Seat::W.as_str()) {
                Some(Seat::W)
            } else if same_text(t, Seat::N.as_str()) {
                Some(Seat::N)
            } else {
                None
            }
        },
    }
}

/// What is read off a table.
struct Reading {
    me: Seat,
    partner: Seat,
    top: Option<Seat>,
    hand: Vec<Card>,
    shown: Vec<Card>,
    level: Option<Rank>,
    top_rank: Option<Rank>,
    may_pass: bool,
    may_play: bool,
    top_is_bomb: bool,
    top_has_joker: bool,
}

spec fn reading(r: Reading, t: AdvancedTable) -> bool {
    &&& r.me == t.me()
    &&& r.partner == t.partner()
    &&& r.top == t.top()
    &&& r.hand@ == t.hand()
    &&& r.shown@ == t.shown()
    &&& r.level == t.level()
    &&& r.top_rank == t.top_rank()
    &&& r.may_pass == t.may_pass()
    &&& r.may_play == t.may_play()
    &&& r.top_is_bomb == t.top_is_bomb()
    &&& r.top_has_joker == t.top_has_joker()
}

fn text_has_joker(text: &str) -> (b: bool)
    ensures
        b == text@.contains('🃏'),
{
    let n: usize = text.unicode_len();
    for i in 0..n
        invariant
            n == text@.len(),
            forall|j: int| 0 <= j < i ==> #[trigger] text@[j] != '🃏',
    {
        if text.get_char(i) == '🃏' {
            assert(text@[i as int] == '🃏');
            return true;
        }
    }
    false
}

fn any_joker(list: &Vec<Option<String>>) -> (b: bool)
    ensures
        b == exists|i: int| 0 <= i < list@.len() && #[trigger] joker_text(list@[i]),
{
    for i in 0..list.len()
        invariant
            forall|j: int| 0 <= j < i ==> !#[trigger] joker_text(list@[j]),
    {
        if let Some(text) = &list[i] {
            if text_has_joker(text.as_str()) {
                assert(joker_text(list@[i as int]));
                return true;
            }
        }
    }
    false
}

fn read_off(t: &AdvancedTable) -> (r: Reading)
    ensures
        reading(r, *t),
{
    let top_rank: Option<Rank> = if t.top_cards.len() == 0 {
        None
    } else {
        match &t.top_cards[0] {
            Some(text) => match parse_card(text.as_str()) {
                Some(card) => Some(card.rank),
                None => None,
            },
            None => None,
        }
    };
    let joker_first = match top_rank {
        Some(Rank::BlackJoker) => true,
        Some(Rank::RedJoker) => true,
        _ => false,
    };
    let top_is_bomb = match &t.top_kind {
        Some(kind) => starts(kind.as_str(), "Bomb"),
        None => false,
    };
    Reading {
        me: match parse_seat(&t.seat) {
            Some(s) => s,
            None => Seat::E,
        },
        partner: match parse_seat(&t.teammate_seat) {
            Some(s) => s,
            None => Seat::W,
        },
        top: parse_seat(&t.top_seat),
        hand: parse_hand(&t.hand_cards),
        shown: parse_top(&t.top_cards),
        level: match &t.hand_level {
            Some(text) => parse_rank(text.as_str()),
            None => parse_rank("2"),
        },
        top_rank,
        may_pass: is_listed(&t.legal_actions, "pass"),
        may_play: is_listed(&t.legal_actions, "play"),
        top_is_bomb,
        top_has_joker: joker_first || any_joker(&t.top_cards),
    }
}

fn note(reasons: &mut Vec<String>, reason: &str)
    ensures
        texts(final(reasons)@) == texts(old(reasons)@).push(reason@),
{
    let ghost before = reasons@;
    let text = reason.to_owned();
    reasons.push(text);
    assert(texts(reasons@) =~= texts(before).push(text@));
}

/// Whether the partner's play lies on the table and is never beaten.
fn leaves_alone(r: &Reading) -> (b: bool)
    ensures
        forall|t: AdvancedTable| reading(*r, t) ==> b == (partner_leads(t) && yields(t)),
{
    let partner_leads = match r.top {
        Some(s) => s == r.partner,
        None => false,
    };
    let is_big = match r.top_rank {
        Some(Rank::Two) => true,
        Some(Rank::Q) => true,
        Some(Rank::K) => true,
        Some(Rank::A) => true,
        _ => false,
    };
    partner_leads && (r.top_is_bomb || r.top_rank == r.level || r.top_has_joker || is_big)
}

/// Plays by weights and by what it has seen.
#[derive(Debug)]
pub struct AdvancedPlayPolicy {
    pub params: AdvancedBotParams,
    pub tracker: HandTracker,
}

fn recount(tracker: &mut HandTracker, left: &PerSeat<u64>)
    requires
        old(tracker).wf(),
    ensures
        final(tracker).wf(),
        final(tracker)@ == recounted(old(tracker)@, *left),
{
    if let Some(n) = left.e {
        tracker.update_seat_count(Seat::E, n as usize);
    }
    if let Some(n) = left.s {
        tracker.update_seat_count(Seat::S, n as usize);
    }
    if let Some(n) = left.w {
        tracker.update_seat_count(Seat::W, n as usize);
    }
    if let Some(n) = left.n {
        tracker.update_seat_count(Seat::N, n as usize);
    }
}

impl AdvancedPlayPolicy {
    /// What the bot has seen.
    pub open spec fn seen(&self) -> Seen {
        self.tracker@
    }

    /// There is a number for each seat, and no more unseen cards than one deck has.
    pub open spec fn wf(&self) -> bool {
        self.tracker.wf()
    }

    /// A bot that has seen nothing.
    pub fn new(params: AdvancedBotParams) -> (policy: Self)
        ensures
            policy.params == params,
            policy.seen() == Seen::fresh(Seat::E),
            policy.wf(),
    {
        AdvancedPlayPolicy { params, tracker: HandTracker::new(Seat::E) }
    }

    fn observe(&mut self, t: &AdvancedTable, r: &Reading)
        requires
            old(self).wf(),
            reading(*r, *t),
        ensures
            final(self).wf(),
            final(self).params == old(self).params,
            final(self).seen() == observed(old(self).seen(), *t),
    {
        if !self.tracker.is_initialized() || self.tracker.get_remaining_count(r.me)
            != r.hand.len() {
            self.tracker.reset();
            self.tracker.set_my_seat(r.me);
            self.tracker.init(r.hand.as_slice(), r.level);
        }
        recount(&mut self.tracker, &t.left);
        if let Some(seat) = r.top {
            if r.shown.len() > 0 && !self.tracker.has_recorded(seat, &r.shown) {
                self.tracker.update_play(seat, r.shown.as_slice());
            }
        }
    }

    /// Decides what to do at a table, after a look at it where there is a choice.
    pub fn decide_at(&mut self, t: &AdvancedTable) -> (decision: BotDecision)
        requires
            old(self).wf(),
            old(self).params.ok(),
        ensures
            final(self).wf(),
            final(self).params == old(self).params,
            final(self).seen() == if looks(*t) {
                observed(old(self).seen(), *t)
            } else {
                old(self).seen()
            },
            match decision {
                BotDecision::Action(a) => a@ is Pass && bot_passes(
                    old(self).params,
                    final(self).seen(),
                    *t,
                ),
                BotDecision::UseSuggest => !bot_passes(old(self).params, final(self).seen(), *t),
            },
    {
        let r = read_off(t);
        if r.may_pass && !r.may_play {
            return BotDecision::Action(PlayerAction::Pass);
        }
        if r.may_play && !r.may_pass {
            return BotDecision::UseSuggest;
        }
        self.observe(t, &r);
        if r.may_pass && r.may_play && r.hand.len() == 1 {
            return BotDecision::UseSuggest;
        }
        if leaves_alone(&r) {
            return BotDecision::Action(PlayerAction::Pass);
        }
        let w = self.weigh(t, &r);
        if w.pass_score > w.play_score {
            BotDecision::Action(PlayerAction::Pass)
        } else {
            BotDecision::UseSuggest
        }
    }

    /// How a pass weighs against a play at a table, by what has been seen; none where the bot
    /// decides without weighing.
    pub fn weighing_at(&self, t: &AdvancedTable) -> (w: Option<Weighing>)
        requires
            self.wf(),
            self.params.ok(),
        ensures
            match w {
                Some(w) => weighs(*t) && is_weighing(w, self.params, self.seen(), *t),
                None => !weighs(*t),
            },
    {
        let r = read_off(t);
        if r.may_pass != r.may_play {
            return None;
        }
        if (r.may_pass && r.hand.len() == 1) || leaves_alone(&r) {
            return None;
        }
        Some(self.weigh(t, &r))
    }

    /// How a pass weighs against a play at a table that is given as JSON text, by what has been
    /// seen; none where the bot decides without weighing.
    pub fn explain_play(&self, state: &str) -> (w: Option<Weighing>)
        requires
            self.wf(),
            self.params.ok(),
        ensures
            exists|t: AdvancedTable| #[trigger]
                advanced_read(t, state@) && match w {
                    Some(w) => weighs(t) && is_weighing(w, self.params, self.seen(), t),
                    None => !weighs(t),
                },
    {
        let t = read_advanced_table(state);
        self.weighing_at(&t)
    }

    fn weigh_lead(&self, t: &AdvancedTable, r: &Reading, reasoner: &ProbabilisticReasoner) -> (w:
        Weighing)
        requires
            self.wf(),
            self.params.ok(),
            reading(*r, *t),
            reasoner.wf(),
            reasoner.seen() == self.seen(),
        ensures
            texts(w.reasons@) == reasons_by_lead(self.params, self.seen(), *t),
            w.pass_score == points_by_lead(self.params, self.seen(), *t).0,
            w.play_score == points_by_lead(self.params, self.seen(), *t).1,
    {
        let p = &self.params;
        let partner_leads = match r.top {
            Some(s) => s == r.partner,
            None => false,
        };
        let mut w = Weighing { pass_score: 0, play_score: 0, reasons: Vec::new() };
        assert(texts(w.reasons@) =~= Seq::<Seq<char>>::empty());
        if partner_leads {
            let follow = match r.top_rank {
                Some(rank) => reasoner.calculate_opponent_has_rank(rank),
                None => Chance { num: 0, den: 1 },
            };
            if is_below(follow, p.prob_threshold_for_intercept) {
                w.play_score = 2 * p.low_card_dump_bias;
                note(&mut w.reasons, "play: safe to follow partner");
            } else {
                w.pass_score = p.yield_to_partner_bias;
                note(&mut w.reasons, "pass: opponent likely can follow");
            }
        } else if r.top.is_some() {
            w.play_score = 2 * UNIT;
            let bomb = reasoner.calculate_opponent_bomb_prob(r.me);
            if is_above(bomb, p.prob_threshold_for_bomb) {
                w.pass_score = 2 * p.bomb_conserve_bias;
                note(&mut w.reasons, "pass: opponent likely has bomb");
            }
            if reasoner.is_any_enemy_sprinting(r.me, p.enemy_low_cards_threshold) {
                w.play_score = w.play_score + p.bomb_aggression_when_enemy_low;
                note(&mut w.reasons, "play: enemy sprinting, need to intercept");
            }
            if reasoner.tracker().get_remaining_count(r.me)
                <= p.endgame_hand_count_threshold as usize {
                w.play_score = w.play_score + p.endgame_clear_hand_bias;
                note(&mut w.reasons, "play: endgame, need to clear");
            }
        } else {
            w.play_score = p.proactive_play_bias;
            note(&mut w.reasons, "play: leading, be proactive");
        }
        assert(texts(w.reasons@) =~= reasons_by_lead(self.params, self.seen(), *t));
        w
    }

    fn weigh(&self, t: &AdvancedTable, r: &Reading) -> (w: Weighing)
        requires
            self.wf(),
            self.params.ok(),
            reading(*r, *t),
        ensures
            is_weighing(w, self.params, self.seen(), *t),
    {
        let reasoner = ProbabilisticReasoner::new(self.tracker.duplicate());
        let p = &self.params;
        let partner_leads = match r.top {
            Some(s) => s == r.partner,
            None => false,
        };
        let enemy_leads = r.top.is_some() && !partner_leads;
        let mut w = self.weigh_lead(t, r, &reasoner);
        if !enemy_leads && reasoner.is_partner_sprinting(r.me, p.partner_sprint_threshold) {
            w.pass_score = w.pass_score + 2 * p.second_out_weight;
            note(&mut w.reasons, "pass: teammate sprinting, yield");
        }
        let win = reasoner.calculate_game_win_prob(r.me);
        if !enemy_leads && 10 * win.num > 7 * win.den {
            w.pass_score = w.pass_score + UNIT;
            note(&mut w.reasons, "pass: team advantage, conserve cards");
        } else if 10 * win.num < 3 * win.den {
            w.play_score = w.play_score + 3 * UNIT / 2;
            note(&mut w.reasons, "play: team disadvantage, need to take control");
        }
        assert(texts(w.reasons@) =~= reasons_for(self.params, self.seen(), *t));
        w
    }

    /// Decides what to do at a table that is given as JSON text.
    pub fn decide_play(&mut self, state: &str) -> (decision: BotDecision)
        requires
            old(self).wf(),
            old(self).params.ok(),
        ensures
            final(self).wf(),
            final(self).params == old(self).params,
            exists|t: AdvancedTable| #[trigger]
                advanced_read(t, state@) && final(self).seen() == (if looks(t) {
                    observed(old(self).seen(), t)
                } else {
                    old(self).seen()
                }) && match decision {
                    BotDecision::Action(a) => a@ is Pass && bot_passes(
                        old(self).params,
                        final(self).seen(),
                        t,
                    ),
                    BotDecision::UseSuggest => !bot_passes(
                        old(self).params,
                        final(self).seen(),
                        t,
                    ),
                },
    {
        let t = read_advanced_table(state);
        self.decide_at(&t)
    }
}

fn is_below(c: Chance, part: i64) -> (b: bool)
    requires
        c.num <= 1_000_000_000_000,
        c.den <= 1_000_000_000_000,
        -WEIGHT_LIMIT <= part <= WEIGHT_LIMIT,
    ensures
        b == chance_below(c@, part as int),
{
    proof {
        assert(-1_000_000_000_000 * 1_000_000_000_000_000 <= part * c.den <= 1_000_000_000_000
            * 1_000_000_000_000_000) by (nonlinear_arith)
            requires
                -1_000_000_000_000_000 <= part <= 1_000_000_000_000_000,
                0 <= c.den <= 1_000_000_000_000,
        ;
    }
    let scaled: i128 = 100_000_000 * c.num as i128;
    assert(scaled == c.num * UNIT);
    scaled < part as i128 * c.den as i128
}

fn is_above(c: Chance, part: i64) -> (b: bool)
    requires
        c.num <= 1_000_000_000_000,
        c.den <= 1_000_000_000_000,
        -WEIGHT_LIMIT <= part <= WEIGHT_LIMIT,
    ensures
        b == chance_above(c@, part as int),
{
    proof {
        assert(-1_000_000_000_000 * 1_000_000_000_000_000 <= part * c.den <= 1_000_000_000_000
            * 1_000_000_000_000_000) by (nonlinear_arith)
            requires
                -1_000_000_000_000_000 <= part <= 1_000_000_000_000_000,
                0 <= c.den <= 1_000_000_000_000,
        ;
    }
    let scaled: i128 = 100_000_000 * c.num as i128;
    assert(scaled == c.num * UNIT);
    scaled > part as i128 * c.den as i128
}

/// The number of cards at a seat that a table, given as JSON text, reports.
pub open spec fn reported_left(state: Seq<char>, seat: Seat) -> Option<u64> {
    match json_field_text(state, "seats"@) {
        Some(seats) => number_in(nested_text(seats, seat_text(seat), "remainingCount"@)),
        None => None,
    }
}

/// What a table, given as JSON text, reports to the player to move.
pub open spec fn advanced_read(t: AdvancedTable, state: Seq<char>) -> bool {
    &&& texts(t.legal_actions@) == ({
        let list = items_in(nested_text(state, "expect"@, "legalActions"@));
        strings_among(list, list.len() as int)
    })
    &&& text_of(t.seat) == string_in(nested_text(state, "private"@, "seat"@))
    &&& text_of(t.teammate_seat) == string_in(nested_text(state, "private"@, "teammateSeat"@))
    &&& text_of(t.top_seat) == string_in(top_field(state, "seat"@))
    &&& texts(t.hand_cards@) == ({
        let list = items_in(nested_text(state, "private"@, "handCards"@));
        strings_among(list, list.len() as int)
    })
    &&& text_of(t.hand_level) == string_in(nested_text(state, "hand"@, "handLevel"@))
    &&& ({
        let list = items_in(top_field(state, "cards"@));
        t.top_cards@.len() == list.len() && forall|i: int|
            0 <= i < list.len() ==> text_of(#[trigger] t.top_cards@[i]) == json_string_text(list[i])
    })
    &&& text_of(t.top_kind) == string_in(top_field(state, "kind"@))
    &&& forall|seat: Seat| #[trigger] t.left.at(seat) == reported_left(state, seat)
}

fn read_left(state: &str, seat: Seat) -> (n: Option<u64>)
    ensures
        n == reported_left(state@, seat),
{
    match read_field(state, "seats") {
        Some(seats) => number_of(read_nested(seats.as_str(), seat.as_str(), "remainingCount")),
        None => None,
    }
}

fn read_top_cards(state: &str) -> (list: Vec<Option<String>>)
    ensures
        list@.len() == items_in(top_field(state@, "cards"@)).len(),
        forall|i: int|
            0 <= i < list@.len() ==> text_of(#[trigger] list@[i]) == json_string_text(
                items_in(top_field(state@, "cards"@))[i],
            ),
{
    let items = items_of(read_top_field(state, "cards"));
    let mut list: Vec<Option<String>> = Vec::new();
    for i in 0..items.len()
        invariant
            list@.len() == i,
            forall|j: int|
                0 <= j < i ==> text_of(#[trigger] list@[j]) == json_string_text(texts(items@)[j]),
    {
        assert(texts(items@)[i as int] == items@[i as int]@);
        list.push(read_string(items[i].as_str()));
    }
    assert(texts(items@).len() == items@.len());
    list
}

/// Reads what a table, given as JSON text, reports to the player to move.
pub fn read_advanced_table(state: &str) -> (table: AdvancedTable)
    ensures
        advanced_read(table, state@),
{
    let legal = items_of(read_nested(state, "expect", "legalActions"));
    let cards = items_of(read_nested(state, "private", "handCards"));
    assert(texts(legal@).len() == legal@.len());
    assert(texts(cards@).len() == cards@.len());
    AdvancedTable {
        legal_actions: strings_of(&legal),
        seat: string_of(read_nested(state, "private", "seat")),
        teammate_seat: string_of(read_nested(state, "private", "teammateSeat")),
        top_seat: string_of(read_top_field(state, "seat")),
        hand_cards: strings_of(&cards),
        hand_level: string_of(read_nested(state, "hand", "handLevel")),
        top_cards: read_top_cards(state),
        top_kind: string_of(read_top_field(state, "kind")),
        left: PerSeat {
            e: read_left(state, Seat::E),
            s: read_left(state, Seat::S),
            w: read_left(state, Seat::W),
            n: read_left(state, Seat::N),
        },
    }
}

/// The bot that plays by this policy.
#[derive(Debug)]
pub struct AdvancedBotPlugin {
    pub play: AdvancedPlayPolicy,
}

impl AdvancedBotPlugin {
    /// A bot with given weights that has seen nothing.
    pub fn with_params(params: AdvancedBotParams) -> (plugin: Self)
        ensures
            plugin.play.params == params,
            plugin.play.seen() == Seen::fresh(Seat::E),
            plugin.play.wf(),
    {
        AdvancedBotPlugin { play: AdvancedPlayPolicy::new(params) }
    }

    /// A bot with the stored weights, or with the balanced ones where none are stored.
    pub fn from_stored(stored: Option<AdvancedBotParams>) -> (plugin: Self)
        ensures
            plugin.play.params == match stored {
                Some(p) => p,
                None => balanced(),
            },
            plugin.play.seen() == Seen::fresh(Seat::E),
            plugin.play.wf(),
    {
        Self::with_params(starting_params(stored))
    }

    /// The name by which the bot is asked for.
    pub fn plugin_id(&self) -> (id: &'static str)
        ensures
            id@ == "advanced-bot"@,
    {
        "advanced-bot"
    }
}

/// Where the bot weighs, the points decide: it passes exactly where the pass has more of them.
pub proof fn weighing_decides(p: AdvancedBotParams, s: Seen, t: AdvancedTable, w: Weighing)
    requires
        weighs(t),
        is_weighing(w, p, s, t),
    ensures
        bot_passes(p, s, t) == (w.pass_score > w.play_score),
{
}

/// The last card is always played: with one card in hand and a play allowed, the bot never
/// passes.
pub proof fn last_card_is_played(p: AdvancedBotParams, s: Seen, t: AdvancedTable)
    requires
        t.hand().len() == 1,
        t.may_play(),
    ensures
        !bot_passes(p, s, t),
{
}

/// A partner's bomb, level card, joker or big card is never beaten, whatever the weights, unless
/// the last card can be played or there is no choice.
pub proof fn partner_is_left_alone(p: AdvancedBotParams, s: Seen, t: AdvancedTable)
    requires
        t.may_pass(),
        partner_leads(t),
        yields(t),
        t.hand().len() != 1,
    ensures
        bot_passes(p, s, t),
{
}

/// A partner's play is followed where it is safe: where the chance that others hold its rank is
/// below the threshold, twice the weight for shedding cards speaks for a play and nothing for a
/// pass; otherwise the weight for yielding speaks for a pass and nothing for a play. The reason
/// that is given says the same.
pub proof fn partner_is_followed_where_safe(p: AdvancedBotParams, s: Seen, t: AdvancedTable)
    requires
        t.top() == Some(t.partner()),
    ensures
        ({
            let odds = match t.top_rank() {
                Some(rank) => s.others_rank_odds(rank),
                None => Odds { num: 0, den: 1 },
            };
            let safe = odds.num * 100_000_000 < p.prob_threshold_for_intercept * odds.den;
            let (pass, play) = points_by_lead(p, s, t);
            &&& safe ==> pass == 0 && play == 2 * p.low_card_dump_bias
            &&& !safe ==> pass == p.yield_to_partner_bias && play == 0
            &&& safe ==> reasons_for(p, s, t)[0] == "play: safe to follow partner"@
            &&& !safe ==> reasons_for(p, s, t)[0] == "pass: opponent likely can follow"@
        }),
{
}

/// Where the chances of winning are even and the partner is not about to run out, a bot with a
/// choice follows a partner's beatable play if and only if that is safe, given positive weights.
pub proof fn safe_plays_are_followed(p: AdvancedBotParams, s: Seen, t: AdvancedTable)
    requires
        t.may_pass(),
        t.may_play(),
        t.hand().len() != 1,
        t.top() == Some(t.partner()),
        !yields(t),
        p.low_card_dump_bias > 0,
        p.yield_to_partner_bias > 0,
        s.left_at(partner_of(t.me())) > p.partner_sprint_threshold,
        3 * s.win_odds(t.me()).den <= 10 * s.win_odds(t.me()).num <= 7 * s.win_odds(t.me()).den,
    ensures
        ({
            let odds = match t.top_rank() {
                Some(rank) => s.others_rank_odds(rank),
                None => Odds { num: 0, den: 1 },
            };
            bot_passes(p, s, t) <==> odds.num * 100_000_000 >= p.prob_threshold_for_intercept
                * odds.den
        }),
{
}

/// Against an opponent's play two points speak for a play, the weight for bombing more where an
/// opponent has few cards, the weight for emptying the hand more where the own hand is small, and
/// one and a half more where the team is behind; for a pass speaks only a likely bomb, with twice
/// the weight for keeping bombs.
pub proof fn opponents_are_answered(p: AdvancedBotParams, s: Seen, t: AdvancedTable)
    requires
        t.top() matches Some(seat) && seat != t.partner(),
    ensures
        ({
            let a = s.left_at(first_opponent(t.me()));
            let b = s.left_at(second_opponent(t.me()));
            let bomb = s.enemy_bomb_odds(t.me());
            let win = s.win_odds(t.me());
            &&& points_for_pass(p, s, t) == if bomb.num * 100_000_000 > p.prob_threshold_for_bomb
                * bomb.den {
                2 * p.bomb_conserve_bias
            } else {
                0
            }
            &&& points_for_play(p, s, t) == 200_000_000 + (if a <= p.enemy_low_cards_threshold || b
                <= p.enemy_low_cards_threshold {
                p.bomb_aggression_when_enemy_low as int
            } else {
                0
            }) + (if s.left_at(t.me()) <= p.endgame_hand_count_threshold {
                p.endgame_clear_hand_bias as int
            } else {
                0
            }) + if 10 * win.num < 3 * win.den {
                150_000_000int
            } else {
                0
            }
        }),
{
}

/// A bot that leads, or follows its partner, has reasons to hold back where the partner is about
/// to run out, by twice the weight for going out second, and where the team is ahead, by one
/// point; one and a half points speak for a play where the team is behind. A leader plays on by
/// the weight for that.
pub proof fn teams_hold_back(p: AdvancedBotParams, s: Seen, t: AdvancedTable)
    requires
        t.top() matches Some(seat) ==> seat == t.partner(),
    ensures
        ({
            let win = s.win_odds(t.me());
            let ahead = 10 * win.num > 7 * win.den;
            &&& points_for_pass(p, s, t) - points_by_lead(p, s, t).0 == (if s.left_at(
                partner_of(t.me()),
            ) <= p.partner_sprint_threshold {
                2 * p.second_out_weight
            } else {
                0
            }) + (if ahead {
                100_000_000int
            } else {
                0
            })
            &&& points_for_play(p, s, t) - points_by_lead(p, s, t).1 == if !ahead && 10 * win.num
                < 3 * win.den {
                150_000_000int
            } else {
                0
            }
            &&& t.top() is None ==> points_by_lead(p, s, t).0 == 0 && points_by_lead(p, s, t).1
                == p.proactive_play_bias
        }),
{
}

/// A bot that may only pass passes, and one that may only play plays, whatever it has seen, and
/// neither looks at the table for that.
pub proof fn forced_moves_are_made(p: AdvancedBotParams, s: Seen, t: AdvancedTable)
    ensures
        t.may_pass() && !t.may_play() ==> bot_passes(p, s, t) && !looks(t),
        t.may_play() && !t.may_pass() ==> !bot_passes(p, s, t) && !looks(t),
        t.may_play() && t.may_pass() ==> looks(t),
{
}

/// Of a partner's plays, bombs, cards of the level, jokers and ranks from the queen up, the two
/// among them, are the ones that are never beaten.
pub proof fn big_plays_are_never_beaten(t: AdvancedTable)
    ensures
        t.top_kind matches Some(kind) && begins_with(kind@, "Bomb"@) ==> yields(t),
        t.top_rank() matches Some(r) && (natural(r) >= 12 || r == Rank::Two || is_joker_rank(r))
            ==> yields(t),
        t.top_rank() == t.level() ==> yields(t),
        !t.top_is_bomb() && !t.top_has_joker() && (t.top_rank() matches Some(r) && 3 <= natural(r)
            <= 11 && t.level() != Some(r)) ==> !yields(t),
{
}

/// What is reported of the numbers of cards is believed, and of a play on the table the number at
/// its seat goes down once, however often it is seen.
pub proof fn a_play_is_counted_once(s: Seen, t: AdvancedTable, seat: Seat)
    requires
        s.left.len() == 4,
    ensures
        t.top() is None ==> (t.left.at(seat) matches Some(n) ==> observed(s, t).left_at(seat)
            == n as usize),
        t.top() is None ==> observed(s, t).played == (if s.known == Set::<Card>::empty() || s.left_at(
            t.me(),
        ) != t.hand().len() {
            Seq::empty()
        } else {
            s.played
        }),
        t.top() matches Some(top) ==> (top != seat ==> (t.left.at(seat) matches Some(n)
            ==> observed(s, t).left_at(seat) == n as usize)),
        t.top() matches Some(top) ==> (t.shown().len() > 0 ==> observed(s, t).played.contains(
            (top, t.shown()),
        )),
{
    let held = if s.known == Set::<Card>::empty() || s.left_at(t.me()) != t.hand().len() {
        Seen::fresh(t.me()).dealt(t.hand(), t.level())
    } else {
        s
    };
    let counted = recounted(held, t.left);
    assert(held.left.len() == 4);
    assert(t.left.at(seat) matches Some(n) ==> counted.left_at(seat) == n as usize);
    if let Some(top) = t.top() {
        if t.shown().len() > 0 && !counted.played.contains((top, t.shown())) {
            let after = counted.after_play(top, t.shown());
            assert(after.played[after.played.len() - 1] == (top, t.shown()));
        }
    }
}

/// Every card is read from its symbol as what it is.
pub proof fn symbols_are_read_as_their_cards(card: Card)
    requires
        card_ok(card),
    ensures
        card_loosely(symbol_text(card)) == Some(card),
        rank_loosely(rank_text(card.rank)) == Some(card.rank),
{
    reveal_strlit("3");
    reveal_strlit("4");
    reveal_strlit("5");
    reveal_strlit("6");
    reveal_strlit("7");
    reveal_strlit("8");
    reveal_strlit("9");
    reveal_strlit("10");
    reveal_strlit("J");
    reveal_strlit("Q");
    reveal_strlit("K");
    reveal_strlit("A");
    reveal_strlit("2");
    reveal_strlit("BJ");
    reveal_strlit("b");
    reveal_strlit("R");
    reveal_strlit("RJ");
    let text = rank_text(card.rank);
    assert(symbol_text(card).skip(1) =~= text);
    assert(symbol_text(card)[0] == suit_char(card.suit));
    if card.rank == Rank::Ten {
        assert(text =~= "10"@);
    } else {
        assert(text.len() == 1);
        assert(text =~= seq![text[0]]);
        assert("3"@ =~= seq!['3'] && "4"@ =~= seq!['4'] && "5"@ =~= seq!['5'] && "6"@ =~= seq!['6']
            && "7"@ =~= seq!['7'] && "8"@ =~= seq!['8'] && "9"@ =~= seq!['9'] && "J"@ =~= seq!['J']
            && "Q"@ =~= seq!['Q'] && "K"@ =~= seq!['K'] && "A"@ =~= seq!['A'] && "2"@ =~= seq!['2']
            && "b"@ =~= seq!['b'] && "R"@ =~= seq!['R']);
        assert(text[0] == rank_text(card.rank)[0]);
    }
}

/// A reason is given where it holds and only there.
pub proof fn reasons_are_given_where_they_hold(p: AdvancedBotParams, s: Seen, t: AdvancedTable, r: Seq<char>)
    ensures
        noted(true, r) == seq![r],
        noted(false, r) == Seq::<Seq<char>>::empty(),
        t.top() is None ==> reasons_for(p, s, t)[0] == "play: leading, be proactive"@,
        ({
            let win = s.win_odds(t.me());
            let held = |b: bool| if b {
                1int
            } else {
                0
            };
            let leads = t.top() matches Some(seat) ==> seat == t.partner();
            &&& leads ==> reasons_for(p, s, t).len() == 1 + held(
                s.left_at(partner_of(t.me())) <= p.partner_sprint_threshold,
            ) + held(10 * win.num > 7 * win.den) + held(
                10 * win.num <= 7 * win.den && 10 * win.num < 3 * win.den,
            )
            &&& !leads ==> reasons_for(p, s, t).len() == held(
                s.enemy_bomb_odds(t.me()).num * 100_000_000 > p.prob_threshold_for_bomb
                    * s.enemy_bomb_odds(t.me()).den,
            ) + held(
                s.left_at(first_opponent(t.me())) <= p.enemy_low_cards_threshold || s.left_at(
                    second_opponent(t.me()),
                ) <= p.enemy_low_cards_threshold,
            ) + held(s.left_at(t.me()) <= p.endgame_hand_count_threshold) + held(
                10 * win.num < 3 * win.den,
            )
        }),
{
}

} // verus!
