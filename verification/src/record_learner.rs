//! What the log of finished hands says about how people play.

use vstd::prelude::*;
use vstd::string::*;
use crate::cards::{
    Card, HandLevel, RuleContext, card_named, is_joker_rank, level_rank, level_text, natural,
    natural_of, read_card,
};
use crate::combination_parser::{CombinationParser, combination_named, lemma_rank_at};
use crate::domain::{Seat, TeamId, partner_of, seat_text, team_of, team_text};
use crate::game_log::GameLogEntry;
use crate::text::{same_text, texts};

verus! {

/// The level that a text names; two where it names none.
pub open spec fn level_or_two(text: Seq<char>) -> HandLevel {
    if exists|l: HandLevel| text == #[trigger] level_text(l) {
        choose|l: HandLevel| text == #[trigger] level_text(l)
    } else {
        HandLevel::Two
    }
}

/// Whether a text names a level.
pub open spec fn names_level(text: Seq<char>) -> bool {
    exists|l: HandLevel| text == #[trigger] level_text(l)
}

proof fn lemma_level_texts(a: HandLevel, b: HandLevel)
    requires
        level_text(a) == level_text(b),
    ensures
        a == b,
{
    let x = level_text(a);
    let y = level_text(b);
    assert(x.len() == y.len() && x[0] == y[0]);
}

fn read_level(text: &str) -> (level: Option<HandLevel>)
    ensures
        match level {
            Some(l) => names_level(text@) && l == level_or_two(text@),
            None => !names_level(text@) && level_or_two(text@) == HandLevel::Two,
        },
{
    let level = HandLevel::from_api_str(text);
    proof {
        if let Some(l) = level {
            assert(text@ == level_text(l));
            lemma_level_texts(l, level_or_two(text@));
        }
    }
    level
}

/// Cards that form a bomb, wild cards standing for whatever they can.
pub open spec fn bomb_action(cards: Seq<String>, level: Seq<char>) -> bool {
    cards.len() > 0 && (combination_named(cards, None, RuleContext { hand_level: level_or_two(level) })
        matches Ok(c) && c.kind is Bomb)
}

/// Whether cards form a bomb.
pub fn is_bomb_action(cards: &[String], hand_level: &str) -> (b: bool)
    ensures
        b == bomb_action(cards@, hand_level@),
{
    if cards.len() == 0 {
        return false;
    }
    let hand_level = match read_level(hand_level) {
        Some(l) => l,
        None => HandLevel::Two,
    };
    match CombinationParser::parse(cards, None, RuleContext { hand_level }) {
        Ok(c) => c.is_bomb(),
        Err(_) => false,
    }
}

/// A text that names a card above ten or of the level.
pub open spec fn large_text(text: Seq<char>, level: Seq<char>) -> bool {
    card_named(text) matches Some(card) && (natural(card.rank) > 10 || natural(card.rank) == natural(
        level_rank(level_or_two(level)),
    ))
}

/// Cards up to ten that are not of the level.
pub open spec fn small_action(cards: Seq<String>, level: Seq<char>) -> bool {
    cards.len() > 0 && forall|i: int|
        0 <= i < cards.len() ==> !large_text((#[trigger] cards[i])@, level)
}

/// Whether cards are small.
pub fn is_small_card_action(cards: &[String], hand_level: &str) -> (b: bool)
    ensures
        b == small_action(cards@, hand_level@),
{
    if cards.len() == 0 {
        return false;
    }
    let level = match read_level(hand_level) {
        Some(l) => l,
        None => HandLevel::Two,
    };
    let bar: u8 = natural_of(level.to_rank());
    for i in 0..cards.len()
        invariant
            bar == natural(level_rank(level_or_two(hand_level@))),
            forall|j: int| 0 <= j < i ==> !large_text((#[trigger] cards@[j])@, hand_level@),
    {
        if let Some(card) = read_card(cards[i].as_str()) {
            let value: u8 = natural_of(card.rank);
            if value > 10 || value == bar {
                assert(large_text(cards@[i as int]@, hand_level@));
                return false;
            }
        }
    }
    true
}

/// The team of a seat letter.
pub open spec fn letter_team(seat: Seq<char>) -> TeamId {
    if seat == seat_text(Seat::E) || seat == seat_text(Seat::W) {
        TeamId::Ew
    } else {
        TeamId::Sn
    }
}

fn seat_team_str(seat: &str) -> (team: TeamId)
    ensures
        team == letter_team(seat@),
{
    if same_text(seat, Seat::E.as_str()) || same_text(seat, Seat::W.as_str()) {
        TeamId::Ew
    } else {
        TeamId::Sn
    }
}

/// Whether two seat letters belong to one team.
pub fn is_partner(seat_a: &str, seat_b: &str) -> (b: bool)
    ensures
        b == (letter_team(seat_a@) == letter_team(seat_b@)),
{
    seat_team_str(seat_a) == seat_team_str(seat_b)
}

/// Whether a text is listed.
pub fn is_listed(list: &Vec<String>, text: &str) -> (b: bool)
    ensures
        b == texts(list@).contains(text@),
{
    for i in 0..list.len()
        invariant
            forall|j: int| 0 <= j < i ==> #[trigger] texts(list@)[j] != text@,
    {
        assert(texts(list@)[i as int] == list@[i as int]@);
        if same_text(list[i].as_str(), text) {
            return true;
        }
    }
    assert(texts(list@).len() == list@.len());
    false
}

/// The `i`-th action is a play.
pub open spec fn plays_at(e: GameLogEntry, i: int) -> bool {
    e.actions@[i].action_type@ == "play"@
}

/// The `i`-th action is a pass.
pub open spec fn passes_at(e: GameLogEntry, i: int) -> bool {
    e.actions@[i].action_type@ == "pass"@
}

/// The `i`-th action is by a person.
pub open spec fn human_at(e: GameLogEntry, i: int) -> bool {
    texts(e.human_seats@).contains(e.actions@[i].seat@)
}

/// The last play among the first `n` actions.
pub open spec fn last_play(e: GameLogEntry, n: int) -> Option<int>
    decreases n,
{
    if n <= 0 {
        None
    } else if plays_at(e, n - 1) {
        Some(n - 1)
    } else {
        last_play(e, n - 1)
    }
}

/// Number of cards of an action.
pub open spec fn cards_at(e: GameLogEntry, i: int) -> nat {
    match e.actions@[i].cards {
        Some(list) => list@.len(),
        None => 0,
    }
}

/// Cards that a seat holds after the first `n` actions: 27 at first, fewer after each play.
pub open spec fn size_after(e: GameLogEntry, seat: Seq<char>, n: int) -> nat
    decreases n,
{
    if n <= 0 {
        27
    } else {
        let before = size_after(e, seat, n - 1);
        if plays_at(e, n - 1) && e.actions@[n - 1].seat@ == seat {
            if before >= cards_at(e, n - 1) {
                (before - cards_at(e, n - 1)) as nat
            } else {
                0
            }
        } else {
            before
        }
    }
}

/// One of the four seat letters.
pub open spec fn is_seat(seat: Seq<char>) -> bool {
    seat == seat_text(Seat::E) || seat == seat_text(Seat::S) || seat == seat_text(Seat::W) || seat
        == seat_text(Seat::N)
}

/// Cards that the player of the `i`-th action holds after it; unknown players always 27.
pub open spec fn own_size(e: GameLogEntry, i: int) -> nat {
    if is_seat(e.actions@[i].seat@) {
        size_after(e, e.actions@[i].seat@, i + 1)
    } else {
        27
    }
}

/// The `i`-th action has cards that form a bomb.
pub open spec fn bombs_at(e: GameLogEntry, i: int) -> bool {
    e.actions@[i].cards matches Some(list) && bomb_action(list@, e.hand_level@)
}

/// The `i`-th action has a card of the level.
pub open spec fn level_at_action(e: GameLogEntry, i: int) -> bool {
    e.actions@[i].cards matches Some(list) && names_level(e.hand_level@) && exists|k: int|
        0 <= k < list@.len() && #[trigger] of_level(list@[k]@, e.hand_level@)
}

pub open spec fn of_level(text: Seq<char>, level: Seq<char>) -> bool {
    card_named(text) matches Some(card) && card.rank == level_rank(level_or_two(level))
}

/// What the `i`-th action meets on the table.
pub open spec fn top_before(e: GameLogEntry, i: int) -> Option<int> {
    last_play(e, i)
}

/// The play on the table before the `i`-th action has cards.
pub open spec fn top_has_cards(e: GameLogEntry, i: int) -> bool {
    top_before(e, i) matches Some(t) && e.actions@[t].cards is Some
}

/// The play on the table before the `i`-th action is by the player's team.
pub open spec fn top_is_partner(e: GameLogEntry, i: int) -> bool {
    top_before(e, i) matches Some(t) && letter_team(e.actions@[t].seat@) == letter_team(
        e.actions@[i].seat@,
    )
}

/// The play on the table before the `i`-th action has small cards.
pub open spec fn top_is_small(e: GameLogEntry, i: int) -> bool {
    top_before(e, i) matches Some(t) && e.actions@[t].cards matches Some(list) && small_action(
        list@,
        e.hand_level@,
    )
}

/// A person plays.
pub open spec fn human_play(e: GameLogEntry, i: int) -> bool {
    human_at(e, i) && plays_at(e, i)
}

/// A person plays on a play with cards.
pub open spec fn human_answer(e: GameLogEntry, i: int) -> bool {
    human_play(e, i) && top_has_cards(e, i)
}

/// A person passes on a play.
pub open spec fn human_pass(e: GameLogEntry, i: int) -> bool {
    human_at(e, i) && passes_at(e, i) && !plays_at(e, i) && top_before(e, i) is Some
}

/// A seat of the other team has one to three cards left after the `i`-th action.
pub open spec fn low_seat(e: GameLogEntry, i: int, seat: Seat) -> bool {
    team_of(seat) != letter_team(e.actions@[i].seat@) && 1 <= size_after(e, seat_text(seat), i + 1)
        <= 3
}

pub open spec fn enemy_low(e: GameLogEntry, i: int) -> bool {
    low_seat(e, i, Seat::E) || low_seat(e, i, Seat::S) || low_seat(e, i, Seat::W) || low_seat(
        e,
        i,
        Seat::N,
    )
}

/// A person plays as many cards as lie on the table, by the own team.
pub open spec fn in_kind(e: GameLogEntry, i: int) -> bool {
    human_answer(e, i) && top_is_partner(e, i) && cards_at(e, i) > 0 && cards_at(
        e,
        top_before(e, i)->Some_0,
    ) == cards_at(e, i)
}

/// A person acts with one to five cards left.
pub open spec fn self_low(e: GameLogEntry, i: int) -> bool {
    human_at(e, i) && 1 <= own_size(e, i) <= 5
}

/// A person leads: no play lies on the table, or an own one.
pub open spec fn human_lead(e: GameLogEntry, i: int) -> bool {
    human_play(e, i) && (top_before(e, i) matches Some(t) ==> e.actions@[t].seat@
        == e.actions@[i].seat@)
}

/// A person at one of the four seats plays for the first time.
pub open spec fn first_play(e: GameLogEntry, i: int) -> bool {
    human_play(e, i) && is_seat(e.actions@[i].seat@) && forall|j: int|
        0 <= j < i ==> !(#[trigger] plays_at(e, j) && e.actions@[j].seat@ == e.actions@[i].seat@)
}

/// How many of the first `n` actions pass a test.
pub open spec fn hits(n: int, test: spec_fn(int) -> bool) -> nat
    decreases n,
{
    if n <= 0 {
        0
    } else {
        hits(n - 1, test) + if test(n - 1) {
            1nat
        } else {
            0nat
        }
    }
}

/// Sum of the hand sizes at first plays among the first `n` actions.
pub open spec fn first_sizes(e: GameLogEntry, n: int) -> nat
    decreases n,
{
    if n <= 0 {
        0
    } else {
        first_sizes(e, n - 1) + if first_play(e, n - 1) {
            own_size(e, n - 1)
        } else {
            0
        }
    }
}

/// How often people did what they could have done.
#[derive(Clone, Copy, Debug, PartialEq, Eq, Structural)]
pub struct LogTally {
    pub plays: usize,
    pub bombs: usize,
    pub level_plays: usize,
    pub first_plays: usize,
    pub first_size_sum: u128,
    pub partner_led: usize,
    pub partner_passed: usize,
    pub partner_small: usize,
    pub partner_small_followed: usize,
    pub answers: usize,
    pub answers_in_kind: usize,
    pub enemy_small: usize,
    pub enemy_small_taken: usize,
    pub enemy_low: usize,
    pub enemy_low_bombed: usize,
    pub self_low: usize,
    pub self_low_bombed: usize,
    pub leads: usize,
}

/// The counts over the first `n` actions.
pub open spec fn tally_of(t: LogTally, e: GameLogEntry, n: int) -> bool {
    &&& t.plays == hits(n, |i: int| human_play(e, i))
    &&& t.bombs == hits(n, |i: int| human_play(e, i) && bombs_at(e, i))
    &&& t.level_plays == hits(n, |i: int| human_play(e, i) && level_at_action(e, i))
    &&& t.first_plays == hits(n, |i: int| first_play(e, i))
    &&& t.first_size_sum == first_sizes(e, n)
    &&& t.partner_led == hits(
        n,
        |i: int| (human_answer(e, i) || human_pass(e, i)) && top_is_partner(e, i),
    )
    &&& t.partner_passed == hits(n, |i: int| human_pass(e, i) && top_is_partner(e, i))
    &&& t.partner_small == hits(
        n,
        |i: int|
            (human_answer(e, i) || human_pass(e, i)) && top_is_partner(e, i) && top_is_small(e, i),
    )
    &&& t.partner_small_followed == hits(
        n,
        |i: int| human_answer(e, i) && top_is_partner(e, i) && top_is_small(e, i),
    )
    &&& t.answers == hits(n, |i: int| human_answer(e, i))
    &&& t.answers_in_kind == hits(n, |i: int| in_kind(e, i))
    &&& t.enemy_small == hits(
        n,
        |i: int|
            (human_answer(e, i) || human_pass(e, i)) && !top_is_partner(e, i) && top_is_small(e, i),
    )
    &&& t.enemy_small_taken == hits(
        n,
        |i: int| human_answer(e, i) && !top_is_partner(e, i) && top_is_small(e, i),
    )
    &&& t.enemy_low == hits(
        n,
        |i: int| human_answer(e, i) && !top_is_partner(e, i) && enemy_low(e, i),
    )
    &&& t.enemy_low_bombed == hits(
        n,
        |i: int|
            human_answer(e, i) && !top_is_partner(e, i) && enemy_low(e, i) && bombs_at(e, i),
    )
    &&& t.self_low == hits(n, |i: int| self_low(e, i))
    &&& t.self_low_bombed == hits(n, |i: int| self_low(e, i) && plays_at(e, i) && bombs_at(e, i))
    &&& t.leads == hits(n, |i: int| human_lead(e, i))
}

/// All counts are within a bound.
spec fn bounded(t: LogTally, n: int) -> bool {
    &&& t.plays <= n
    &&& t.bombs <= n
    &&& t.level_plays <= n
    &&& t.first_plays <= n
    &&& t.first_size_sum <= 27 * n
    &&& t.partner_led <= n
    &&& t.partner_passed <= n
    &&& t.partner_small <= n
    &&& t.partner_small_followed <= n
    &&& t.answers <= n
    &&& t.answers_in_kind <= n
    &&& t.enemy_small <= n
    &&& t.enemy_small_taken <= n
    &&& t.enemy_low <= n
    &&& t.enemy_low_bombed <= n
    &&& t.self_low <= n
    &&& t.self_low_bombed <= n
    &&& t.leads <= n
}

/// Cards at each of the four seats.
#[derive(Clone, Copy, Debug, PartialEq, Eq, Structural)]
struct Sizes {
    e: usize,
    s: usize,
    w: usize,
    n: usize,
}

spec fn sizes_of(z: Sizes, e: GameLogEntry, n: int) -> bool {
    &&& z.e == size_after(e, seat_text(Seat::E), n)
    &&& z.s == size_after(e, seat_text(Seat::S), n)
    &&& z.w == size_after(e, seat_text(Seat::W), n)
    &&& z.n == size_after(e, seat_text(Seat::N), n)
    &&& z.e <= 27 && z.s <= 27 && z.w <= 27 && z.n <= 27
}

fn less(a: usize, b: usize) -> (c: usize)
    ensures
        c == if a >= b {
            a - b
        } else {
            0
        },
{
    if a >= b {
        a - b
    } else {
        0
    }
}

proof fn lemma_seat_letters()
    ensures
        seat_text(Seat::E) != seat_text(Seat::S),
        seat_text(Seat::E) != seat_text(Seat::W),
        seat_text(Seat::E) != seat_text(Seat::N),
        seat_text(Seat::S) != seat_text(Seat::W),
        seat_text(Seat::S) != seat_text(Seat::N),
        seat_text(Seat::W) != seat_text(Seat::N),
{
    assert(seat_text(Seat::E)[0] == 'E');
    assert(seat_text(Seat::S)[0] == 'S');
    assert(seat_text(Seat::W)[0] == 'W');
    assert(seat_text(Seat::N)[0] == 'N');
}

fn seat_named(text: &str) -> (seat: Option<Seat>)
    ensures
        match seat {
            Some(s) => text@ == seat_text(s) && is_seat(text@),
            None => !is_seat(text@),
        },
{
    if same_text(text, Seat::E.as_str()) {
        Some(Seat::E)
    } else if same_text(text, Seat::S.as_str()) {
        Some(Seat::S)
    } else if same_text(text, Seat::W.as_str()) {
        Some(Seat::W)
    } else if same_text(text, Seat::N.as_str()) {
        Some(Seat::N)
    } else {
        None
    }
}

fn after_action(z: Sizes, entry: &GameLogEntry, i: usize) -> (next: Sizes)
    requires
        i < entry.actions@.len(),
        sizes_of(z, *entry, i as int),
    ensures
        sizes_of(next, *entry, i + 1),
{
    let action = &entry.actions[i];
    let count: usize = match &action.cards {
        Some(list) => list.len(),
        None => 0,
    };
    proof {
        lemma_seat_letters();
    }
    if !same_text(action.action_type.as_str(), "play") {
        return z;
    }
    match seat_named(action.seat.as_str()) {
        Some(Seat::E) => Sizes { e: less(z.e, count), s: z.s, w: z.w, n: z.n },
        Some(Seat::S) => Sizes { e: z.e, s: less(z.s, count), w: z.w, n: z.n },
        Some(Seat::W) => Sizes { e: z.e, s: z.s, w: less(z.w, count), n: z.n },
        Some(Seat::N) => Sizes { e: z.e, s: z.s, w: z.w, n: less(z.n, count) },
        None => z,
    }
}

fn has_level_card(cards: &Vec<String>, hand_level: &str) -> (b: bool)
    ensures
        b == (names_level(hand_level@) && exists|k: int|
            0 <= k < cards@.len() && #[trigger] of_level(cards@[k]@, hand_level@)),
{
    let level = match read_level(hand_level) {
        Some(l) => l,
        None => {
            return false;
        },
    };
    let rank = level.to_rank();
    for k in 0..cards.len()
        invariant
            rank == level_rank(level_or_two(hand_level@)),
            names_level(hand_level@),
            forall|j: int| 0 <= j < k ==> !#[trigger] of_level(cards@[j]@, hand_level@),
    {
        if let Some(card) = read_card(cards[k].as_str()) {
            if card.rank == rank {
                assert(of_level(cards@[k as int]@, hand_level@));
                return true;
            }
        }
    }
    false
}

fn low_team(z: Sizes, team: TeamId) -> (b: bool)
    ensures
        b == ((team == TeamId::Ew && (1 <= z.s <= 3 || 1 <= z.n <= 3)) || (team == TeamId::Sn && (1
            <= z.e <= 3 || 1 <= z.w <= 3))),
{
    match team {
        TeamId::Ew => (1 <= z.s && z.s <= 3) || (1 <= z.n && z.n <= 3),
        TeamId::Sn => (1 <= z.e && z.e <= 3) || (1 <= z.w && z.w <= 3),
    }
}

/// What there is to say about one action.
#[derive(Clone, Copy, Debug, PartialEq, Eq, Structural)]
struct ActionFacts {
    play: bool,
    bomb: bool,
    level: bool,
    first: bool,
    answer: bool,
    pass: bool,
    partner: bool,
    small: bool,
    kind: bool,
    enemy_low: bool,
    self_low: bool,
    played_low: bool,
    lead: bool,
    size: usize,
}

spec fn facts_at(f: ActionFacts, e: GameLogEntry, i: int) -> bool {
    &&& f.play == human_play(e, i)
    &&& f.bomb == bombs_at(e, i)
    &&& f.level == level_at_action(e, i)
    &&& f.first == first_play(e, i)
    &&& f.answer == human_answer(e, i)
    &&& f.pass == human_pass(e, i)
    &&& f.partner == top_is_partner(e, i)
    &&& f.small == top_is_small(e, i)
    &&& f.kind == in_kind(e, i)
    &&& f.enemy_low == enemy_low(e, i)
    &&& f.self_low == self_low(e, i)
    &&& f.played_low == plays_at(e, i)
    &&& f.lead == human_lead(e, i)
    &&& f.size == own_size(e, i)
}

fn played_before(entry: &GameLogEntry, i: usize) -> (b: bool)
    requires
        i < entry.actions@.len(),
    ensures
        b == exists|j: int|
            0 <= j < i && #[trigger] plays_at(*entry, j) && entry.actions@[j].seat@
                == entry.actions@[i as int].seat@,
{
    for j in 0..i
        invariant
            i < entry.actions@.len(),
            forall|k: int|
                0 <= k < j ==> !(#[trigger] plays_at(*entry, k) && entry.actions@[k].seat@
                    == entry.actions@[i as int].seat@),
    {
        if same_text(entry.actions[j].action_type.as_str(), "play") && same_text(
            entry.actions[j].seat.as_str(),
            entry.actions[i].seat.as_str(),
        ) {
            assert(plays_at(*entry, j as int));
            return true;
        }
    }
    false
}

proof fn lemma_last_play(e: GameLogEntry, n: int)
    requires
        0 <= n <= e.actions@.len(),
    ensures
        last_play(e, n) matches Some(t) ==> 0 <= t < n && plays_at(e, t),
    decreases n,
{
    if n > 0 && !plays_at(e, n - 1) {
        lemma_last_play(e, n - 1);
    }
}

fn study_action(entry: &GameLogEntry, i: usize, top: Option<usize>, z: Sizes) -> (f: ActionFacts)
    requires
        i < entry.actions@.len(),
        last_play(*entry, i as int) == match top {
            Some(t) => Some(t as int),
            None => None,
        },
        sizes_of(z, *entry, i + 1),
    ensures
        facts_at(f, *entry, i as int),
        f.size <= 27,
{
    proof {
        lemma_last_play(*entry, i as int);
        lemma_seat_letters();
    }
    let action = &entry.actions[i];
    let level = entry.hand_level.as_str();
    let human = is_listed(&entry.human_seats, action.seat.as_str());
    let plays = same_text(action.action_type.as_str(), "play");
    let passes = same_text(action.action_type.as_str(), "pass");
    let count: usize = match &action.cards {
        Some(list) => list.len(),
        None => 0,
    };
    let bomb = match &action.cards {
        Some(list) => is_bomb_action(list.as_slice(), level),
        None => false,
    };
    let has_level = match &action.cards {
        Some(list) => has_level_card(list, level),
        None => false,
    };
    let seat = seat_named(action.seat.as_str());
    let size: usize = match seat {
        Some(Seat::E) => z.e,
        Some(Seat::S) => z.s,
        Some(Seat::W) => z.w,
        Some(Seat::N) => z.n,
        None => 27,
    };
    let (top_cards, partner, small, top_count, own_top) = match top {
        Some(t) => {
            let other = &entry.actions[t];
            let (has, small, n): (bool, bool, usize) = match &other.cards {
                Some(list) => (true, is_small_card_action(list.as_slice(), level), list.len()),
                None => (false, false, 0),
            };
            (
                has,
                is_partner(other.seat.as_str(), action.seat.as_str()),
                small,
                n,
                same_text(other.seat.as_str(), action.seat.as_str()),
            )
        },
        None => (false, false, false, 0, true),
    };
    let play = human && plays;
    let answer = play && top_cards;
    let team = seat_team_str(action.seat.as_str());
    let first = play && seat.is_some() && !played_before(entry, i);
    ActionFacts {
        play,
        bomb,
        level: has_level,
        first,
        answer,
        pass: human && passes && !plays && top.is_some(),
        partner,
        small,
        kind: answer && partner && count > 0 && top_count == count,
        enemy_low: low_team(z, team),
        self_low: human && 1 <= size && size <= 5,
        played_low: plays,
        lead: play && own_top,
        size,
    }
}

fn bump(n: usize, hit: bool) -> (m: usize)
    requires
        hit ==> n < usize::MAX,
    ensures
        m == n + if hit {
            1int
        } else {
            0int
        },
{
    if hit {
        n + 1
    } else {
        n
    }
}

/// Counts over the actions of a logged hand.
pub fn tally_log(entry: &GameLogEntry) -> (t: LogTally)
    ensures
        tally_of(t, *entry, entry.actions@.len() as int),
{
    let total: usize = entry.actions.len();
    let mut t = LogTally {
        plays: 0,
        bombs: 0,
        level_plays: 0,
        first_plays: 0,
        first_size_sum: 0,
        partner_led: 0,
        partner_passed: 0,
        partner_small: 0,
        partner_small_followed: 0,
        answers: 0,
        answers_in_kind: 0,
        enemy_small: 0,
        enemy_small_taken: 0,
        enemy_low: 0,
        enemy_low_bombed: 0,
        self_low: 0,
        self_low_bombed: 0,
        leads: 0,
    };
    let mut z = Sizes { e: 27, s: 27, w: 27, n: 27 };
    let mut top: Option<usize> = None;
    for i in 0..total
        invariant
            total == entry.actions@.len(),
            tally_of(t, *entry, i as int),
            bounded(t, i as int),
            sizes_of(z, *entry, i as int),
            last_play(*entry, i as int) == match top {
                Some(k) => Some(k as int),
                None => None,
            },
    {
        z = after_action(z, entry, i);
        let f = study_action(entry, i, top, z);
        t = add_facts(t, f, entry, i);
        if same_text(entry.actions[i].action_type.as_str(), "play") {
            top = Some(i);
        }
    }
    t
}

fn add_facts(t: LogTally, f: ActionFacts, entry: &GameLogEntry, i: usize) -> (next: LogTally)
    requires
        i < entry.actions@.len(),
        tally_of(t, *entry, i as int),
        bounded(t, i as int),
        facts_at(f, *entry, i as int),
        f.size <= 27,
    ensures
        tally_of(next, *entry, i + 1),
        bounded(next, i + 1),
{
    let total: usize = entry.actions.len();
    assert(i < total);
    let reply = f.answer || f.pass;
    LogTally {
        plays: bump(t.plays, f.play),
        bombs: bump(t.bombs, f.play && f.bomb),
        level_plays: bump(t.level_plays, f.play && f.level),
        first_plays: bump(t.first_plays, f.first),
        first_size_sum: t.first_size_sum + if f.first {
            f.size as u128
        } else {
            0
        },
        partner_led: bump(t.partner_led, reply && f.partner),
        partner_passed: bump(t.partner_passed, f.pass && f.partner),
        partner_small: bump(t.partner_small, reply && f.partner && f.small),
        partner_small_followed: bump(
            t.partner_small_followed,
            f.answer && f.partner && f.small,
        ),
        answers: bump(t.answers, f.answer),
        answers_in_kind: bump(t.answers_in_kind, f.kind),
        enemy_small: bump(t.enemy_small, reply && !f.partner && f.small),
        enemy_small_taken: bump(t.enemy_small_taken, f.answer && !f.partner && f.small),
        enemy_low: bump(t.enemy_low, f.answer && !f.partner && f.enemy_low),
        enemy_low_bombed: bump(
            t.enemy_low_bombed,
            f.answer && !f.partner && f.enemy_low && f.bomb,
        ),
        self_low: bump(t.self_low, f.self_low),
        self_low_bombed: bump(t.self_low_bombed, f.self_low && f.played_low && f.bomb),
        leads: bump(t.leads, f.lead),
    }
}

/// How people play, as shares with eight decimal places.
#[derive(Clone, Copy, Debug, PartialEq, Eq, Structural)]
pub struct PlayerPatterns {
    pub avg_hand_size_at_first_play: i64,
    pub bomb_usage_rate: i64,
    pub pass_when_partner_leads_rate: i64,
    pub follow_partner_small_card_rate: i64,
    pub intercept_enemy_small_card_rate: i64,
    pub bomb_when_enemy_low_cards_rate: i64,
    pub save_bomb_for_endgame_rate: i64,
    pub level_card_usage_rate: i64,
    pub combo_follow_rate: i64,
    pub proactive_play_rate: i64,
}

/// What is taken for granted where there is nothing to count.
pub open spec fn usual_patterns() -> PlayerPatterns {
    PlayerPatterns {
        avg_hand_size_at_first_play: 1_800_000_000,
        bomb_usage_rate: 30_000_000,
        pass_when_partner_leads_rate: 60_000_000,
        follow_partner_small_card_rate: 70_000_000,
        intercept_enemy_small_card_rate: 80_000_000,
        bomb_when_enemy_low_cards_rate: 90_000_000,
        save_bomb_for_endgame_rate: 60_000_000,
        level_card_usage_rate: 40_000_000,
        combo_follow_rate: 50_000_000,
        proactive_play_rate: 50_000_000,
    }
}

impl Default for PlayerPatterns {
    fn default() -> (p: Self)
        ensures
            p == usual_patterns(),
    {
        PlayerPatterns {
            avg_hand_size_at_first_play: 1_800_000_000,
            bomb_usage_rate: 30_000_000,
            pass_when_partner_leads_rate: 60_000_000,
            follow_partner_small_card_rate: 70_000_000,
            intercept_enemy_small_card_rate: 80_000_000,
            bomb_when_enemy_low_cards_rate: 90_000_000,
            save_bomb_for_endgame_rate: 60_000_000,
            level_card_usage_rate: 40_000_000,
            combo_follow_rate: 50_000_000,
            proactive_play_rate: 50_000_000,
        }
    }
}

/// A share, rounded down to eight decimal places; the usual one where there is nothing to
/// count.
pub open spec fn share_of(n: int, of: int, usual: i64) -> i64 {
    if of > 0 {
        (n * 100_000_000 / of) as i64
    } else {
        usual
    }
}

/// The shares that counts amount to.
pub open spec fn patterns_of(t: LogTally) -> PlayerPatterns {
    let u = usual_patterns();
    PlayerPatterns {
        avg_hand_size_at_first_play: share_of(
            t.first_size_sum as int,
            t.first_plays as int,
            u.avg_hand_size_at_first_play,
        ),
        bomb_usage_rate: share_of(t.bombs as int, t.plays as int, u.bomb_usage_rate),
        pass_when_partner_leads_rate: share_of(
            t.partner_passed as int,
            t.partner_led as int,
            u.pass_when_partner_leads_rate,
        ),
        follow_partner_small_card_rate: share_of(
            t.partner_small_followed as int,
            t.partner_small as int,
            u.follow_partner_small_card_rate,
        ),
        intercept_enemy_small_card_rate: share_of(
            t.enemy_small_taken as int,
            t.enemy_small as int,
            u.intercept_enemy_small_card_rate,
        ),
        bomb_when_enemy_low_cards_rate: share_of(
            t.enemy_low_bombed as int,
            t.enemy_low as int,
            u.bomb_when_enemy_low_cards_rate,
        ),
        save_bomb_for_endgame_rate: if t.self_low > 0 {
            (100_000_000 - share_of(t.self_low_bombed as int, t.self_low as int, 0)) as i64
        } else {
            u.save_bomb_for_endgame_rate
        },
        level_card_usage_rate: share_of(
            t.level_plays as int,
            t.plays as int,
            u.level_card_usage_rate,
        ),
        combo_follow_rate: share_of(
            t.answers_in_kind as int,
            t.answers as int,
            u.combo_follow_rate,
        ),
        proactive_play_rate: share_of(t.leads as int, t.plays as int, u.proactive_play_rate),
    }
}

/// A count is no greater than that of a weaker test.
proof fn lemma_hits_le(n: int, f: spec_fn(int) -> bool, g: spec_fn(int) -> bool)
    requires
        forall|i: int| #[trigger] f(i) ==> g(i),
    ensures
        hits(n, f) <= hits(n, g),
    decreases n,
{
    if n > 0 {
        lemma_hits_le(n - 1, f, g);
        assert(f(n - 1) ==> g(n - 1));
    }
}

proof fn lemma_size(e: GameLogEntry, seat: Seq<char>, n: int)
    ensures
        size_after(e, seat, n) <= 27,
    decreases n,
{
    if n > 0 {
        lemma_size(e, seat, n - 1);
    }
}

proof fn lemma_first_sizes(e: GameLogEntry, n: int)
    ensures
        first_sizes(e, n) <= 27 * hits(n, |i: int| first_play(e, i)),
    decreases n,
{
    if n > 0 {
        lemma_first_sizes(e, n - 1);
        lemma_size(e, e.actions@[n - 1].seat@, n);
    }
}

/// No count exceeds the number of times there was occasion.
pub open spec fn consistent(t: LogTally) -> bool {
    &&& t.first_size_sum <= 27 * t.first_plays
    &&& t.bombs <= t.plays
    &&& t.level_plays <= t.plays
    &&& t.partner_passed <= t.partner_led
    &&& t.partner_small_followed <= t.partner_small
    &&& t.answers_in_kind <= t.answers
    &&& t.enemy_small_taken <= t.enemy_small
    &&& t.enemy_low_bombed <= t.enemy_low
    &&& t.self_low_bombed <= t.self_low
    &&& t.leads <= t.plays
}

/// People never do a thing more often than there is occasion for it.
pub proof fn counts_are_consistent(t: LogTally, e: GameLogEntry)
    requires
        tally_of(t, e, e.actions@.len() as int),
    ensures
        consistent(t),
{
    let n = e.actions@.len() as int;
    lemma_first_sizes(e, n);
    lemma_hits_le(
        n,
        |i: int| human_play(e, i) && bombs_at(e, i),
        |i: int| human_play(e, i),
    );
    lemma_hits_le(
        n,
        |i: int| human_play(e, i) && level_at_action(e, i),
        |i: int| human_play(e, i),
    );
    lemma_hits_le(
        n,
        |i: int| human_pass(e, i) && top_is_partner(e, i),
        |i: int| (human_answer(e, i) || human_pass(e, i)) && top_is_partner(e, i),
    );
    lemma_hits_le(
        n,
        |i: int| human_answer(e, i) && top_is_partner(e, i) && top_is_small(e, i),
        |i: int|
            (human_answer(e, i) || human_pass(e, i)) && top_is_partner(e, i) && top_is_small(e, i),
    );
    lemma_hits_le(n, |i: int| in_kind(e, i), |i: int| human_answer(e, i));
    lemma_hits_le(
        n,
        |i: int| human_answer(e, i) && !top_is_partner(e, i) && top_is_small(e, i),
        |i: int|
            (human_answer(e, i) || human_pass(e, i)) && !top_is_partner(e, i) && top_is_small(e, i),
    );
    lemma_hits_le(
        n,
        |i: int| human_answer(e, i) && !top_is_partner(e, i) && enemy_low(e, i) && bombs_at(e, i),
        |i: int| human_answer(e, i) && !top_is_partner(e, i) && enemy_low(e, i),
    );
    lemma_hits_le(
        n,
        |i: int| self_low(e, i) && plays_at(e, i) && bombs_at(e, i),
        |i: int| self_low(e, i),
    );
    lemma_hits_le(n, |i: int| human_lead(e, i), |i: int| human_play(e, i));
}

/// Shares of ordinary size: nothing below none or above certainty, hands of at most 27.
pub open spec fn proper(p: PlayerPatterns) -> bool {
    &&& 0 <= p.avg_hand_size_at_first_play <= 2_700_000_000
    &&& 0 <= p.bomb_usage_rate <= 100_000_000
    &&& 0 <= p.pass_when_partner_leads_rate <= 100_000_000
    &&& 0 <= p.follow_partner_small_card_rate <= 100_000_000
    &&& 0 <= p.intercept_enemy_small_card_rate <= 100_000_000
    &&& 0 <= p.bomb_when_enemy_low_cards_rate <= 100_000_000
    &&& 0 <= p.save_bomb_for_endgame_rate <= 100_000_000
    &&& 0 <= p.level_card_usage_rate <= 100_000_000
    &&& 0 <= p.combo_follow_rate <= 100_000_000
    &&& 0 <= p.proactive_play_rate <= 100_000_000
}

fn share(n: u128, of: usize, usual: i64, limit: u128) -> (x: i64)
    requires
        n <= limit * of,
        limit <= 27,
        0 <= usual <= 100_000_000 * limit,
    ensures
        x == share_of(n as int, of as int, usual),
        0 <= x <= 100_000_000 * limit,
{
    if of == 0 {
        return usual;
    }
    proof {
        assert(limit * of <= 27 * 0xffff_ffff_ffff_ffff) by (nonlinear_arith)
            requires
                limit <= 27,
                of <= 0xffff_ffff_ffff_ffff,
                limit >= 0,
                of >= 0,
        ;
        let scaled = n * 100_000_000;
        assert(0 <= scaled / (of as int) <= 100_000_000 * limit) by (nonlinear_arith)
            requires
                0 <= scaled <= limit * of * 100_000_000,
                of > 0,
        ;
    }
    ((n * 100_000_000) / of as u128) as i64
}

fn rates(t: LogTally) -> (p: PlayerPatterns)
    requires
        consistent(t),
    ensures
        p == patterns_of(t),
        proper(p),
{
    let u = PlayerPatterns::default();
    PlayerPatterns {
        avg_hand_size_at_first_play: share(
            t.first_size_sum,
            t.first_plays,
            u.avg_hand_size_at_first_play,
            27,
        ),
        bomb_usage_rate: share(t.bombs as u128, t.plays, u.bomb_usage_rate, 1),
        pass_when_partner_leads_rate: share(
            t.partner_passed as u128,
            t.partner_led,
            u.pass_when_partner_leads_rate,
            1,
        ),
        follow_partner_small_card_rate: share(
            t.partner_small_followed as u128,
            t.partner_small,
            u.follow_partner_small_card_rate,
            1,
        ),
        intercept_enemy_small_card_rate: share(
            t.enemy_small_taken as u128,
            t.enemy_small,
            u.intercept_enemy_small_card_rate,
            1,
        ),
        bomb_when_enemy_low_cards_rate: share(
            t.enemy_low_bombed as u128,
            t.enemy_low,
            u.bomb_when_enemy_low_cards_rate,
            1,
        ),
        save_bomb_for_endgame_rate: if t.self_low > 0 {
            100_000_000 - share(t.self_low_bombed as u128, t.self_low, 0, 1)
        } else {
            u.save_bomb_for_endgame_rate
        },
        level_card_usage_rate: share(
            t.level_plays as u128,
            t.plays,
            u.level_card_usage_rate,
            1,
        ),
        combo_follow_rate: share(
            t.answers_in_kind as u128,
            t.answers,
            u.combo_follow_rate,
            1,
        ),
        proactive_play_rate: share(t.leads as u128, t.plays, u.proactive_play_rate, 1),
    }
}

/// A person's team has won.
pub open spec fn human_won(e: GameLogEntry) -> bool {
    exists|i: int|
        0 <= i < e.human_seats@.len() && team_text(letter_team((#[trigger] e.human_seats@[i])@))
            == e.winner_team@
}

fn people_won(entry: &GameLogEntry) -> (b: bool)
    ensures
        b == human_won(*entry),
{
    for i in 0..entry.human_seats.len()
        invariant
            forall|j: int|
                0 <= j < i ==> team_text(letter_team((#[trigger] entry.human_seats@[j])@))
                    != entry.winner_team@,
    {
        let team = seat_team_str(entry.human_seats[i].as_str());
        if same_text(team.as_str(), entry.winner_team.as_str()) {
            assert(team_text(letter_team(entry.human_seats@[i as int]@)) == entry.winner_team@);
            return true;
        }
    }
    false
}

/// The patterns of a logged hand.
pub open spec fn entry_patterns(p: PlayerPatterns, e: GameLogEntry) -> bool {
    if e.human_seats@.len() == 0 || e.actions@.len() == 0 {
        p == usual_patterns()
    } else {
        exists|t: LogTally| #[trigger] tally_of(t, e, e.actions@.len() as int) && p == patterns_of(t)
    }
}

/// Whether people have won a logged hand, and how they played.
pub fn analyze_game_log(entry: &GameLogEntry) -> (found: (bool, PlayerPatterns))
    ensures
        found.0 == human_won(*entry),
        entry_patterns(found.1, *entry),
        proper(found.1),
{
    let won = people_won(entry);
    if entry.human_seats.len() == 0 || entry.actions.len() == 0 {
        return (won, PlayerPatterns::default());
    }
    let t = tally_log(entry);
    proof {
        counts_are_consistent(t, *entry);
    }
    (won, rates(t))
}

/// A share is what was done of what could have been done: nothing of it is zero, all of it one,
/// and in between it is off by less than a hundred-millionth.
pub proof fn shares_are_proportions(n: int, of: int, usual: i64)
    requires
        0 <= n <= of,
        of > 0,
    ensures
        share_of(n, of, usual) * of <= n * 100_000_000 < (share_of(n, of, usual) + 1) * of,
        share_of(0, of, usual) == 0,
        share_of(of, of, usual) == 100_000_000,
        0 <= share_of(n, of, usual) <= 100_000_000,
        share_of(n, 0, usual) == usual,
{
    let x = n * 100_000_000;
    let q = x / of;
    assert(0 <= q <= 100_000_000 && q * of <= x < (q + 1) * of) by (nonlinear_arith)
        requires
            q == x / of,
            0 <= x <= of * 100_000_000,
            of > 0,
    ;
    assert(of * 100_000_000 / of == 100_000_000) by (nonlinear_arith)
        requires
            of > 0,
    ;
    assert(0int * 100_000_000 / of == 0) by (nonlinear_arith)
        requires
            of > 0,
    ;
}

/// What the habits of people are shares of: bombs, cards of the level and leads of their plays;
/// passes of the partner's plays; answers to the partner's and interceptions of the opponents'
/// small cards; bombs on opponents with few cards; plays in kind of their answers; and bombs kept
/// where they had few cards left.
pub proof fn habits_are_shares(t: LogTally)
    requires
        consistent(t),
    ensures
        ({
            let p = patterns_of(t);
            let unit = 100_000_000int;
            let near = |x: i64, n: int, of: int| x * of <= n * unit < (x + 1) * of;
            &&& t.plays > 0 ==> near(p.bomb_usage_rate, t.bombs as int, t.plays as int)
            &&& t.plays > 0 ==> near(p.level_card_usage_rate, t.level_plays as int, t.plays as int)
            &&& t.plays > 0 ==> near(p.proactive_play_rate, t.leads as int, t.plays as int)
            &&& t.partner_led > 0 ==> near(
                p.pass_when_partner_leads_rate,
                t.partner_passed as int,
                t.partner_led as int,
            )
            &&& t.partner_small > 0 ==> near(
                p.follow_partner_small_card_rate,
                t.partner_small_followed as int,
                t.partner_small as int,
            )
            &&& t.enemy_small > 0 ==> near(
                p.intercept_enemy_small_card_rate,
                t.enemy_small_taken as int,
                t.enemy_small as int,
            )
            &&& t.enemy_low > 0 ==> near(
                p.bomb_when_enemy_low_cards_rate,
                t.enemy_low_bombed as int,
                t.enemy_low as int,
            )
            &&& t.answers > 0 ==> near(
                p.combo_follow_rate,
                t.answers_in_kind as int,
                t.answers as int,
            )
            &&& t.self_low > 0 ==> near(
                (unit - p.save_bomb_for_endgame_rate) as i64,
                t.self_low_bombed as int,
                t.self_low as int,
            )
            &&& t.self_low > 0 && t.self_low_bombed == 0 ==> p.save_bomb_for_endgame_rate == unit
            &&& t.self_low > 0 && t.self_low_bombed == t.self_low ==> p.save_bomb_for_endgame_rate
                == 0
        }),
{
    if t.plays > 0 {
        shares_are_proportions(t.bombs as int, t.plays as int, usual_patterns().bomb_usage_rate);
        shares_are_proportions(
            t.level_plays as int,
            t.plays as int,
            usual_patterns().level_card_usage_rate,
        );
        shares_are_proportions(t.leads as int, t.plays as int, usual_patterns().proactive_play_rate);
    }
    if t.partner_led > 0 {
        shares_are_proportions(
            t.partner_passed as int,
            t.partner_led as int,
            usual_patterns().pass_when_partner_leads_rate,
        );
    }
    if t.partner_small > 0 {
        shares_are_proportions(
            t.partner_small_followed as int,
            t.partner_small as int,
            usual_patterns().follow_partner_small_card_rate,
        );
    }
    if t.enemy_small > 0 {
        shares_are_proportions(
            t.enemy_small_taken as int,
            t.enemy_small as int,
            usual_patterns().intercept_enemy_small_card_rate,
        );
    }
    if t.enemy_low > 0 {
        shares_are_proportions(
            t.enemy_low_bombed as int,
            t.enemy_low as int,
            usual_patterns().bomb_when_enemy_low_cards_rate,
        );
    }
    if t.answers > 0 {
        shares_are_proportions(
            t.answers_in_kind as int,
            t.answers as int,
            usual_patterns().combo_follow_rate,
        );
    }
    if t.self_low > 0 {
        shares_are_proportions(t.self_low_bombed as int, t.self_low as int, 0);
    }
}

/// People win a hand exactly where the team of one of them wins it.
pub proof fn people_win_with_their_team(e: GameLogEntry)
    ensures
        human_won(e) <==> exists|i: int|
            0 <= i < e.human_seats@.len() && e.winner_team@ == team_text(
                letter_team((#[trigger] e.human_seats@[i])@),
            ),
{
}

/// What lies on the table is the last play before, whoever made it; passes leave it there.
pub proof fn last_play_lies_on_the_table(e: GameLogEntry, n: int)
    requires
        0 <= n <= e.actions@.len(),
    ensures
        match last_play(e, n) {
            Some(k) => 0 <= k < n && plays_at(e, k) && forall|j: int|
                k < j < n ==> !#[trigger] plays_at(e, j),
            None => forall|j: int| 0 <= j < n ==> !#[trigger] plays_at(e, j),
        },
    decreases n,
{
    if n > 0 {
        last_play_lies_on_the_table(e, n - 1);
    }
}

/// A seat holds 27 cards at first and never more; its own plays take as many as they have, and
/// nothing else takes any.
pub proof fn plays_shrink_the_hand(e: GameLogEntry, seat: Seq<char>, n: int)
    requires
        0 <= n < e.actions@.len(),
    ensures
        size_after(e, seat, 0) == 27,
        size_after(e, seat, n + 1) <= size_after(e, seat, n) <= 27,
        e.actions@[n].seat@ != seat || e.actions@[n].action_type@ != "play"@ ==> size_after(
            e,
            seat,
            n + 1,
        ) == size_after(e, seat, n),
        e.actions@[n].seat@ == seat && e.actions@[n].action_type@ == "play"@ ==> (
        e.actions@[n].cards matches Some(list) ==> (list@.len() <= size_after(e, seat, n)
            ==> size_after(e, seat, n + 1) == size_after(e, seat, n) - list@.len())),
{
    lemma_size(e, seat, n);
}

/// East and west are partners, and so are south and north; across the teams nobody is.
pub proof fn letters_name_teams(a: Seat, b: Seat)
    ensures
        letter_team(seat_text(a)) == team_of(a),
        letter_team(seat_text(a)) == letter_team(seat_text(b)) <==> a == b || b == partner_of(a),
{
    lemma_seat_letters();
}

/// Cards are small where each is at most a ten and none is of the level; nothing is not small.
pub proof fn small_actions_have_small_cards(cards: Seq<String>, level: HandLevel, i: int, card: Card)
    requires
        0 <= i < cards.len(),
        card_named(cards[i]@) == Some(card),
    ensures
        natural(card.rank) > 10 ==> !small_action(cards, level_text(level)),
        card.rank == level_rank(level) ==> !small_action(cards, level_text(level)),
        cards.len() == 1 && natural(card.rank) <= 10 && card.rank != level_rank(level)
            && !is_joker_rank(card.rank) ==> small_action(cards, level_text(level)),
        !small_action(Seq::empty(), level_text(level)),
{
    let text = level_text(level);
    assert(names_level(text));
    lemma_level_texts(level, level_or_two(text));
    assert(large_text(cards[i]@, text) <==> natural(card.rank) > 10 || natural(card.rank) == natural(
        level_rank(level),
    ));
    if !is_joker_rank(card.rank) {
        lemma_rank_at(card.rank);
        lemma_rank_at(level_rank(level));
    }
}

/// What is counted of an action: an opponent has few cards with one to three of them; people have
/// few themselves with one to five; they lead where nothing or an own play lies on the table, answer
/// where a play with cards does, and answer in kind with as many cards as their own team has put
/// there.
pub proof fn actions_are_told_apart(e: GameLogEntry, i: int, seat: Seat)
    requires
        0 <= i < e.actions@.len(),
    ensures
        team_of(seat) != letter_team(e.actions@[i].seat@) && 1 <= size_after(
            e,
            seat_text(seat),
            i + 1,
        ) <= 3 ==> enemy_low(e, i),
        enemy_low(e, i) ==> exists|other: Seat|
            team_of(other) != letter_team(e.actions@[i].seat@) && 0 < size_after(
                e,
                #[trigger] seat_text(other),
                i + 1,
            ) < 4,
        self_low(e, i) <==> human_at(e, i) && 0 < own_size(e, i) < 6,
        human_lead(e, i) <==> human_at(e, i) && plays_at(e, i) && (last_play(e, i) is None
            || e.actions@[last_play(e, i)->Some_0].seat@ == e.actions@[i].seat@),
        human_answer(e, i) <==> human_at(e, i) && plays_at(e, i) && (last_play(e, i) matches Some(t)
            && e.actions@[t].cards is Some),
        human_pass(e, i) <==> human_at(e, i) && e.actions@[i].action_type@ == "pass"@
            && e.actions@[i].action_type@ != "play"@ && last_play(e, i) is Some,
        in_kind(e, i) ==> cards_at(e, i) == cards_at(e, last_play(e, i)->Some_0) && cards_at(e, i) > 0
            && letter_team(e.actions@[last_play(e, i)->Some_0].seat@) == letter_team(
            e.actions@[i].seat@,
        ),
{
    if enemy_low(e, i) {
        if low_seat(e, i, Seat::E) {
            assert(seat_text(Seat::E) == seat_text(Seat::E));
        } else if low_seat(e, i, Seat::S) {
            assert(seat_text(Seat::S) == seat_text(Seat::S));
        } else if low_seat(e, i, Seat::W) {
            assert(seat_text(Seat::W) == seat_text(Seat::W));
        } else {
            assert(seat_text(Seat::N) == seat_text(Seat::N));
        }
    }
}

} // verus!
