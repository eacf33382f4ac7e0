//! What the rule bot reads off a table.

use vstd::prelude::*;
use vstd::string::*;
use crate::cards::{rank_str, rank_text};
use crate::combination_parser::{rank_at, rank_from_value};
use crate::json::{
    items_in, items_of, json_field_text, json_key_texts, nested_text, number_in, number_of,
    read_field, read_keys, read_nested, string_in, string_of, strings_among, strings_of, text_of,
};
use crate::leftovers::lesser;
use crate::tally::{lemma_tally_step, tally};
use crate::text::{copy_texts, same_text, texts, trim, trimmed};

verus! {

/// The rank part of a card's text: what follows the suit sign, or the whole where there is
/// none; jokers have none.
pub open spec fn rank_token(card: Seq<char>) -> Option<Seq<char>> {
    let t = trimmed(card);
    if t.len() > 0 && t[0] == '🃏' {
        None
    } else if t.len() > 0 && (t[0] == '♠' || t[0] == '♥' || t[0] == '♦' || t[0] == '♣') {
        Some(t.skip(1))
    } else {
        Some(t)
    }
}

fn card_rank_token(card: &str) -> (token: Option<&str>)
    ensures
        match token {
            Some(t) => rank_token(card@) == Some(t@),
            None => rank_token(card@) is None,
        },
{
    let t = trim(card);
    let n: usize = t.unicode_len();
    if n > 0 {
        let c = t.get_char(0);
        if c == '🃏' {
            return None;
        }
        if c == '♠' || c == '♥' || c == '♦' || c == '♣' {
            let rest = t.substring_char(1, n);
            assert(rest@ =~= t@.skip(1));
            return Some(rest);
        }
    }
    Some(t)
}

/// A card of the rank at a natural value.
pub open spec fn shows_rank(v: int) -> spec_fn(Seq<char>) -> bool {
    |card: Seq<char>| rank_token(card) == Some(rank_text(rank_at(v)))
}

/// A card from two to ten that is not of the level.
pub open spec fn small_card(card: Seq<char>, level: Option<Seq<char>>) -> bool {
    exists|v: int|
        2 <= v <= 10 && #[trigger] shows_rank(v)(card) && level != Some(rank_text(rank_at(v)))
}

pub open spec fn small_cards(level: Option<Seq<char>>) -> spec_fn(Seq<char>) -> bool {
    |card: Seq<char>| small_card(card, level)
}

/// How many ranks from value `v` up to `top`, the level excepted, have at least `n` cards.
pub open spec fn ranks_held(
    cards: Seq<Seq<char>>,
    level: Option<Seq<char>>,
    v: int,
    top: int,
    n: int,
) -> nat
    decreases top + 1 - v,
{
    if v > top {
        0
    } else {
        ranks_held(cards, level, v + 1, top, n) + if level != Some(rank_text(rank_at(v))) && tally(
            cards,
            shows_rank(v),
        ) >= n {
            1nat
        } else {
            0nat
        }
    }
}

/// The wild card of the level.
pub open spec fn wild_text(card: Seq<char>, level: Option<Seq<char>>) -> bool {
    match level {
        Some(l) => trimmed(card) == seq!['♥'] + l,
        None => false,
    }
}

pub open spec fn wild_texts(level: Option<Seq<char>>) -> spec_fn(Seq<char>) -> bool {
    |card: Seq<char>| wild_text(card, level)
}

/// The rank parts of the first `n` cards, wild cards and jokers left out.
pub open spec fn tokens_of(cards: Seq<Seq<char>>, level: Option<Seq<char>>, n: int) -> Seq<Seq<char>>
    decreases n,
{
    if n <= 0 {
        Seq::empty()
    } else {
        let front = tokens_of(cards, level, n - 1);
        if wild_text(cards[n - 1], level) {
            front
        } else {
            match rank_token(cards[n - 1]) {
                Some(t) => front.push(t),
                None => front,
            }
        }
    }
}

pub open spec fn same_token(t: Seq<char>) -> spec_fn(Seq<char>) -> bool {
    |x: Seq<char>| x == t
}

/// How many different texts among the first `n` occur as often as a test asks.
pub open spec fn groups_among(tokens: Seq<Seq<char>>, test: spec_fn(nat) -> bool, n: int) -> nat
    decreases n,
{
    if n <= 0 {
        0
    } else {
        groups_among(tokens, test, n - 1) + if !tokens.take(n - 1).contains(tokens[n - 1]) && test(
            tally(tokens, same_token(tokens[n - 1])),
        ) {
            1nat
        } else {
            0nat
        }
    }
}

/// A card's suit sign and its natural value.
pub open spec fn suit_mark(card: Seq<char>, level: Option<Seq<char>>) -> Option<(char, int)> {
    let t = trimmed(card);
    if wild_text(card, level) || t.len() == 0 {
        None
    } else {
        match value_named(t.skip(1), 2) {
            Some(v) => Some((t[0], v)),
            None => None,
        }
    }
}

/// The natural value, from `v` on, of the rank that a text names.
pub open spec fn value_named(text: Seq<char>, v: int) -> Option<int>
    decreases 15 - v,
{
    if v > 14 {
        None
    } else if text == rank_text(rank_at(v)) {
        Some(v)
    } else {
        value_named(text, v + 1)
    }
}

pub open spec fn has_mark(cards: Seq<Seq<char>>, level: Option<Seq<char>>, suit: char, v: int) -> bool {
    exists|i: int| 0 <= i < cards.len() && suit_mark(#[trigger] cards[i], level) == Some((suit, v))
}

/// How many runs of five a suit has from value `v` on, `run` values before it being held and
/// not yet used.
pub open spec fn suit_runs(
    cards: Seq<Seq<char>>,
    level: Option<Seq<char>>,
    suit: char,
    v: int,
    run: int,
) -> nat
    decreases 15 - v,
{
    if v > 14 {
        0
    } else if !has_mark(cards, level, suit, v) {
        suit_runs(cards, level, suit, v + 1, 0)
    } else if run + 1 >= 5 {
        1 + suit_runs(cards, level, suit, v + 1, 0)
    } else {
        suit_runs(cards, level, suit, v + 1, run + 1)
    }
}

/// A suit sign among the first `n` cards.
pub open spec fn suit_before(cards: Seq<Seq<char>>, level: Option<Seq<char>>, suit: char, n: int) -> bool {
    exists|i: int|
        0 <= i < n && suit_mark(#[trigger] cards[i], level) is Some && suit_mark(
            cards[i],
            level,
        )->Some_0.0 == suit
}

/// How many runs of five the suits have that occur among the first `n` cards.
pub open spec fn runs_among(cards: Seq<Seq<char>>, level: Option<Seq<char>>, n: int) -> nat
    decreases n,
{
    if n <= 0 {
        0
    } else {
        runs_among(cards, level, n - 1) + match suit_mark(cards[n - 1], level) {
            Some((suit, _)) => if suit_before(cards, level, suit, n - 1) {
                0
            } else {
                suit_runs(cards, level, suit, 2, 0)
            },
            None => 0,
        }
    }
}

/// How many bombs a hand has: four or more of a rank, three with a wild card each, and runs of
/// five in a suit.
pub open spec fn bombs_guessed(cards: Seq<Seq<char>>, level: Option<Seq<char>>) -> int {
    let tokens = tokens_of(cards, level, cards.len() as int);
    let w = tally(cards, wild_texts(level)) as int;
    groups_among(tokens, |k: nat| k >= 4, tokens.len() as int) + lesser(
        groups_among(tokens, |k: nat| k == 3, tokens.len() as int) as int,
        w,
    ) + runs_among(cards, level, cards.len() as int)
}

pub open spec fn level_text_of(level: Option<&str>) -> Option<Seq<char>> {
    match level {
        Some(l) => Some(l@),
        None => None,
    }
}

fn is_level(level: Option<&str>, text: &str) -> (b: bool)
    ensures
        b == (level_text_of(level) == Some(text@)),
{
    match level {
        Some(l) => same_text(l, text),
        None => false,
    }
}

/// Whether a card is one from two to ten that is not of the level.
pub fn is_small_card_symbol(card: &str, hand_level: Option<&str>) -> (b: bool)
    ensures
        b == small_card(card@, level_text_of(hand_level)),
{
    let token = match card_rank_token(card) {
        Some(t) => t,
        None => {
            return false;
        },
    };
    let mut v: u8 = 2;
    while v <= 10
        invariant
            2 <= v <= 11,
            rank_token(card@) == Some(token@),
            forall|u: int|
                2 <= u < v && #[trigger] shows_rank(u)(card@) ==> level_text_of(hand_level) == Some(
                    rank_text(rank_at(u)),
                ),
        decreases 11 - v,
    {
        let text = rank_str(rank_from_value(v));
        if same_text(token, text) && !is_level(hand_level, text) {
            assert(shows_rank(v as int)(card@));
            return true;
        }
        v = v + 1;
    }
    false
}

fn count_showing(cards: &[String], v: u8) -> (n: usize)
    ensures
        n == tally(texts(cards@), shows_rank(v as int)),
        n <= cards@.len(),
{
    let text = rank_str(rank_from_value(v));
    let ghost list = texts(cards@);
    let mut n: usize = 0;
    assert(list.take(0) =~= Seq::<Seq<char>>::empty());
    for i in 0..cards.len()
        invariant
            list == texts(cards@),
            text@ == rank_text(rank_at(v as int)),
            n <= i,
            n == tally(list.take(i as int), shows_rank(v as int)),
    {
        proof {
            lemma_tally_step(list, shows_rank(v as int), i as int);
            assert(list[i as int] == cards@[i as int]@);
        }
        if let Some(token) = card_rank_token(cards[i].as_str()) {
            if same_text(token, text) {
                n = n + 1;
            }
        }
    }
    assert(list.take(list.len() as int) =~= list);
    n
}

fn count_ranks(cards: &[String], hand_level: Option<&str>, top: u8, least: usize) -> (n: usize)
    requires
        2 <= top <= 14,
    ensures
        n == ranks_held(texts(cards@), level_text_of(hand_level), 2, top as int, least as int),
{
    let mut n: usize = 0;
    let mut v: u8 = 2;
    while v <= top
        invariant
            2 <= v <= top + 1,
            top <= 14,
            n <= v - 2,
            n + ranks_held(
                texts(cards@),
                level_text_of(hand_level),
                v as int,
                top as int,
                least as int,
            ) == ranks_held(texts(cards@), level_text_of(hand_level), 2, top as int, least as int),
        decreases top + 1 - v,
    {
        let text = rank_str(rank_from_value(v));
        if !is_level(hand_level, text) && count_showing(cards, v) >= least {
            n = n + 1;
        }
        v = v + 1;
    }
    n
}

/// How many ranks from two to queen, the level excepted, a hand has.
pub fn count_medium_singles(hand_cards: &[String], hand_level: Option<&str>) -> (n: usize)
    ensures
        n == ranks_held(texts(hand_cards@), level_text_of(hand_level), 2, 12, 1),
{
    count_ranks(hand_cards, hand_level, 12, 1)
}

/// How many ranks from two to nine, the level excepted, a hand has two cards of.
pub fn count_small_pair_ranks(hand_cards: &[String], hand_level: Option<&str>) -> (n: usize)
    ensures
        n == ranks_held(texts(hand_cards@), level_text_of(hand_level), 2, 9, 2),
{
    count_ranks(hand_cards, hand_level, 9, 2)
}

/// How many ranks from two to nine, the level excepted, a hand has three cards of.
pub fn count_small_triple_ranks(hand_cards: &[String], hand_level: Option<&str>) -> (n: usize)
    ensures
        n == ranks_held(texts(hand_cards@), level_text_of(hand_level), 2, 9, 3),
{
    count_ranks(hand_cards, hand_level, 9, 3)
}

/// Whether a card is the wild card of the level: the heart, no other suit.
pub fn is_wildcard_symbol(card: &str, hand_level: Option<&str>) -> (b: bool)
    ensures
        b == wild_text(card@, level_text_of(hand_level)),
{
    match hand_level {
        Some(level) => {
            proof {
                reveal_strlit("♥");
                assert("♥"@ =~= seq!['♥']);
            }
            let wanted = "♥".to_owned().concat(level);
            same_text(trim(card), wanted.as_str())
        },
        None => false,
    }
}

fn count_wild_texts(cards: &[String], hand_level: Option<&str>) -> (n: usize)
    ensures
        n == tally(texts(cards@), wild_texts(level_text_of(hand_level))),
        n <= cards@.len(),
{
    let ghost list = texts(cards@);
    let ghost test = wild_texts(level_text_of(hand_level));
    let mut n: usize = 0;
    assert(list.take(0) =~= Seq::<Seq<char>>::empty());
    for i in 0..cards.len()
        invariant
            list == texts(cards@),
            test == wild_texts(level_text_of(hand_level)),
            n <= i,
            n == tally(list.take(i as int), test),
    {
        proof {
            lemma_tally_step(list, test, i as int);
            assert(list[i as int] == cards@[i as int]@);
        }
        if is_wildcard_symbol(cards[i].as_str(), hand_level) {
            n = n + 1;
        }
    }
    assert(list.take(list.len() as int) =~= list);
    n
}

fn collect_tokens(cards: &[String], hand_level: Option<&str>) -> (tokens: Vec<String>)
    ensures
        texts(tokens@) == tokens_of(
            texts(cards@),
            level_text_of(hand_level),
            cards@.len() as int,
        ),
        tokens@.len() <= cards@.len(),
{
    let ghost list = texts(cards@);
    let mut out: Vec<String> = Vec::new();
    assert(texts(out@) =~= Seq::<Seq<char>>::empty());
    for i in 0..cards.len()
        invariant
            list == texts(cards@),
            out@.len() <= i,
            texts(out@) == tokens_of(list, level_text_of(hand_level), i as int),
    {
        let ghost done = out@;
        assert(list[i as int] == cards@[i as int]@);
        if !is_wildcard_symbol(cards[i].as_str(), hand_level) {
            if let Some(token) = card_rank_token(cards[i].as_str()) {
                let text = token.to_owned();
                out.push(text);
                assert(texts(out@) =~= texts(done).push(text@));
            }
        }
    }
    out
}

fn count_token(tokens: &Vec<String>, token: &str) -> (n: usize)
    ensures
        n == tally(texts(tokens@), same_token(token@)),
        n <= tokens@.len(),
{
    let ghost list = texts(tokens@);
    let mut n: usize = 0;
    assert(list.take(0) =~= Seq::<Seq<char>>::empty());
    for i in 0..tokens.len()
        invariant
            list == texts(tokens@),
            n <= i,
            n == tally(list.take(i as int), same_token(token@)),
    {
        proof {
            lemma_tally_step(list, same_token(token@), i as int);
            assert(list[i as int] == tokens@[i as int]@);
        }
        if same_text(tokens[i].as_str(), token) {
            n = n + 1;
        }
    }
    assert(list.take(list.len() as int) =~= list);
    n
}

fn occurs_before(tokens: &Vec<String>, i: usize) -> (b: bool)
    requires
        i < tokens@.len(),
    ensures
        b == texts(tokens@).take(i as int).contains(texts(tokens@)[i as int]),
{
    let ghost list = texts(tokens@);
    for j in 0..i
        invariant
            i < tokens@.len(),
            list == texts(tokens@),
            forall|k: int| 0 <= k < j ==> #[trigger] list[k] != list[i as int],
    {
        assert(list[j as int] == tokens@[j as int]@);
        assert(list[i as int] == tokens@[i as int]@);
        if same_text(tokens[j].as_str(), tokens[i].as_str()) {
            assert(list.take(i as int)[j as int] == list[i as int]);
            return true;
        }
    }
    proof {
        let t = list.take(i as int);
        if t.contains(list[i as int]) {
            let k = t.index_of(list[i as int]);
            assert(t[k] == list[k]);
        }
    }
    false
}

/// Numbers of groups of four or more, and of three.
fn count_groups(tokens: &Vec<String>) -> (n: (usize, usize))
    ensures
        n.0 == groups_among(texts(tokens@), |k: nat| k >= 4, tokens@.len() as int),
        n.1 == groups_among(texts(tokens@), |k: nat| k == 3, tokens@.len() as int),
        n.0 <= tokens@.len(),
{
    let ghost list = texts(tokens@);
    let ghost four = |k: nat| k >= 4;
    let ghost three = |k: nat| k == 3;
    let mut fours: usize = 0;
    let mut threes: usize = 0;
    for i in 0..tokens.len()
        invariant
            list == texts(tokens@),
            four == (|k: nat| k >= 4),
            three == (|k: nat| k == 3),
            fours <= i,
            threes <= i,
            fours == groups_among(list, four, i as int),
            threes == groups_among(list, three, i as int),
    {
        assert(list[i as int] == tokens@[i as int]@);
        let fresh = !occurs_before(tokens, i);
        let k: usize = count_token(tokens, tokens[i].as_str());
        if fresh && k >= 4 {
            fours = fours + 1;
        }
        if fresh && k == 3 {
            threes = threes + 1;
        }
    }
    (fours, threes)
}

/// A suit sign and a natural value.
#[derive(Clone, Copy, Debug, PartialEq, Eq, Structural)]
struct Mark {
    suit: char,
    value: u8,
}

spec fn mark_of(m: Option<Mark>) -> Option<(char, int)> {
    match m {
        Some(x) => Some((x.suit, x.value as int)),
        None => None,
    }
}

fn read_value(text: &str) -> (value: Option<u8>)
    ensures
        match value {
            Some(v) => value_named(text@, 2) == Some(v as int) && 2 <= v <= 14,
            None => value_named(text@, 2) is None,
        },
{
    let mut v: u8 = 2;
    while v <= 14
        invariant
            2 <= v <= 15,
            value_named(text@, 2) == value_named(text@, v as int),
        decreases 15 - v,
    {
        if same_text(text, rank_str(rank_from_value(v))) {
            return Some(v);
        }
        v = v + 1;
    }
    None
}

fn read_mark(card: &str, hand_level: Option<&str>) -> (mark: Option<Mark>)
    ensures
        mark_of(mark) == suit_mark(card@, level_text_of(hand_level)),
{
    let t = trim(card);
    let n: usize = t.unicode_len();
    if n == 0 || is_wildcard_symbol(card, hand_level) {
        return None;
    }
    let rest = t.substring_char(1, n);
    assert(rest@ =~= t@.skip(1));
    match read_value(rest) {
        Some(value) => Some(Mark { suit: t.get_char(0), value }),
        None => None,
    }
}

fn read_marks(cards: &[String], hand_level: Option<&str>) -> (marks: Vec<Option<Mark>>)
    ensures
        marks@.len() == cards@.len(),
        forall|i: int|
            0 <= i < marks@.len() ==> mark_of(#[trigger] marks@[i]) == suit_mark(
                texts(cards@)[i],
                level_text_of(hand_level),
            ),
{
    let mut marks: Vec<Option<Mark>> = Vec::new();
    for i in 0..cards.len()
        invariant
            marks@.len() == i,
            forall|j: int|
                0 <= j < i ==> mark_of(#[trigger] marks@[j]) == suit_mark(
                    texts(cards@)[j],
                    level_text_of(hand_level),
                ),
    {
        assert(texts(cards@)[i as int] == cards@[i as int]@);
        marks.push(read_mark(cards[i].as_str(), hand_level));
    }
    marks
}

/// The marks are those of the cards.
spec fn marks_of(marks: Seq<Option<Mark>>, cards: Seq<Seq<char>>, level: Option<Seq<char>>) -> bool {
    &&& marks.len() == cards.len()
    &&& forall|i: int|
        0 <= i < marks.len() ==> mark_of(#[trigger] marks[i]) == suit_mark(cards[i], level)
}

fn holds_mark(
    marks: &Vec<Option<Mark>>,
    suit: char,
    value: u8,
    Ghost(cards): Ghost<Seq<Seq<char>>>,
    Ghost(level): Ghost<Option<Seq<char>>>,
) -> (b: bool)
    requires
        marks_of(marks@, cards, level),
    ensures
        b == has_mark(cards, level, suit, value as int),
{
    for i in 0..marks.len()
        invariant
            marks_of(marks@, cards, level),
            forall|j: int|
                0 <= j < i ==> suit_mark(#[trigger] cards[j], level) != Some((suit, value as int)),
    {
        assert(mark_of(marks@[i as int]) == suit_mark(cards[i as int], level));
        if let Some(m) = marks[i] {
            if m.suit == suit && m.value == value {
                assert(suit_mark(cards[i as int], level) == Some((suit, value as int)));
                return true;
            }
        }
    }
    false
}

fn count_suit_runs(
    marks: &Vec<Option<Mark>>,
    suit: char,
    Ghost(cards): Ghost<Seq<Seq<char>>>,
    Ghost(level): Ghost<Option<Seq<char>>>,
) -> (n: usize)
    requires
        marks_of(marks@, cards, level),
    ensures
        n == suit_runs(cards, level, suit, 2, 0),
        n <= 2,
{
    let mut n: usize = 0;
    let mut run: usize = 0;
    let mut v: u8 = 2;
    while v <= 14
        invariant
            2 <= v <= 15,
            marks_of(marks@, cards, level),
            run < 5,
            5 * n + run <= v - 2,
            n + suit_runs(cards, level, suit, v as int, run as int) == suit_runs(
                cards,
                level,
                suit,
                2,
                0,
            ),
        decreases 15 - v,
    {
        if holds_mark(marks, suit, v, Ghost(cards), Ghost(level)) {
            if run + 1 >= 5 {
                n = n + 1;
                run = 0;
            } else {
                run = run + 1;
            }
        } else {
            run = 0;
        }
        v = v + 1;
    }
    n
}

/// How many runs of five a hand has, suit by suit.
pub fn count_straight_flush_approx(hand_cards: &[String], hand_level: Option<&str>) -> (n: u128)
    ensures
        n == runs_among(
            texts(hand_cards@),
            level_text_of(hand_level),
            hand_cards@.len() as int,
        ),
        n <= 2 * hand_cards@.len(),
{
    let ghost cards = texts(hand_cards@);
    let ghost level = level_text_of(hand_level);
    let marks = read_marks(hand_cards, hand_level);
    let mut n: u128 = 0;
    for i in 0..marks.len()
        invariant
            marks_of(marks@, cards, level),
            n <= 2 * i,
            n == runs_among(cards, level, i as int),
    {
        assert(mark_of(marks@[i as int]) == suit_mark(cards[i as int], level));
        if let Some(m) = marks[i] {
            let mut seen = false;
            for j in 0..i
                invariant
                    marks_of(marks@, cards, level),
                    i < marks@.len(),
                    seen == suit_before(cards, level, m.suit, j as int),
            {
                assert(mark_of(marks@[j as int]) == suit_mark(cards[j as int], level));
                if let Some(other) = marks[j] {
                    if other.suit == m.suit {
                        assert(suit_mark(cards[j as int], level) is Some);
                        seen = true;
                    }
                }
            }
            if !seen {
                n = n + count_suit_runs(&marks, m.suit, Ghost(cards), Ghost(level)) as u128;
            }
        }
    }
    n
}

/// How many bombs a hand has, roughly.
pub fn count_bombs_in_hand(hand_cards: &[String], hand_level: Option<&str>) -> (n: u128)
    ensures
        n == bombs_guessed(texts(hand_cards@), level_text_of(hand_level)),
{
    let tokens = collect_tokens(hand_cards, hand_level);
    let (fours, threes) = count_groups(&tokens);
    let w: usize = count_wild_texts(hand_cards, hand_level);
    let helped: usize = if threes <= w {
        threes
    } else {
        w
    };
    assert(texts(tokens@).len() == tokens@.len());
    let held: usize = hand_cards.len();
    let runs: u128 = count_straight_flush_approx(hand_cards, hand_level);
    assert(runs <= 2 * held);
    fours as u128 + helped as u128 + runs
}

/// The number of cards at a seat, as a table reports it.
#[derive(Debug)]
pub struct SeatLeft {
    pub seat: String,
    pub left: Option<u64>,
}

/// What a table reports to the rule bot.
#[derive(Debug)]
pub struct RuleTable {
    pub legal_actions: Vec<String>,
    pub seat: Option<String>,
    pub teammate_seat: Option<String>,
    pub top_seat: Option<String>,
    pub hand_cards: Vec<String>,
    pub hand_level: Option<String>,
    pub seats: Vec<SeatLeft>,
    pub top_kind: Option<String>,
    pub top_primary: Option<u64>,
}

/// What the rule bot goes by.
#[derive(Debug)]
pub struct RuleFeatures {
    pub legal_actions: Vec<String>,
    pub can_pass: bool,
    pub can_play: bool,
    pub my_seat: Option<String>,
    pub teammate_seat: Option<String>,
    pub top_play_seat: Option<String>,
    pub my_hand_count: usize,
    pub low_card_count: usize,
    pub teammate_remaining: Option<u8>,
    pub enemy_min_remaining: Option<u8>,
    pub enemy_low_cards_urgent: bool,
    pub endgame_mode: bool,
    pub leading_new_trick: bool,
    /// Bombs in hand, roughly.
    pub bomb_count: u128,
    /// Kind of the play on the table.
    pub top_play_kind: Option<String>,
    /// Ranks from two to queen in hand, the level excepted.
    pub medium_single_count: usize,
    /// Ranks from two to nine with two cards, the level excepted.
    pub small_pair_rank_count: usize,
    /// Ranks from two to nine with three cards, the level excepted.
    pub small_triple_rank_count: usize,
    /// Value of the play on the table.
    pub top_play_value: Option<u8>,
    /// Natural value of the level's rank.
    pub level_rank: Option<u8>,
}

/// The last eight bits of a number.
pub open spec fn low_byte(n: u64) -> u8 {
    (n % 256) as u8
}

/// The number of cards at a seat: that of the first report about it.
pub open spec fn reported(seats: Seq<SeatLeft>, seat: Seq<char>, i: int) -> Option<u8>
    decreases seats.len() - i,
{
    if i < 0 || i >= seats.len() {
        None
    } else if seats[i].seat@ == seat {
        match seats[i].left {
            Some(n) => Some(low_byte(n)),
            None => None,
        }
    } else {
        reported(seats, seat, i + 1)
    }
}

pub open spec fn lesser_byte(a: Option<u8>, b: Option<u8>) -> Option<u8> {
    match (a, b) {
        (Some(x), Some(y)) => if x <= y {
            Some(x)
        } else {
            Some(y)
        },
        (Some(x), None) => Some(x),
        (None, _) => b,
    }
}

/// The smallest number of cards among the first `n` reported seats, two seats excepted.
pub open spec fn fewest_of_others(
    seats: Seq<SeatLeft>,
    own: Option<Seq<char>>,
    partner: Option<Seq<char>>,
    n: int,
) -> Option<u8>
    decreases n,
{
    if n <= 0 {
        None
    } else {
        let before = fewest_of_others(seats, own, partner, n - 1);
        let seat = seats[n - 1].seat@;
        if own == Some(seat) || partner == Some(seat) {
            before
        } else {
            match seats[n - 1].left {
                Some(k) => lesser_byte(before, Some(low_byte(k))),
                None => before,
            }
        }
    }
}

/// A text, unless it is empty.
pub open spec fn unless_empty(text: Option<Seq<char>>) -> Option<Seq<char>> {
    match text {
        Some(t) => if t.len() == 0 {
            None
        } else {
            Some(t)
        },
        None => None,
    }
}

/// The natural value of the rank that a level's text names: two is 2, the ace is 14.
pub open spec fn level_value(level: Option<Seq<char>>) -> Option<int> {
    match level {
        Some(t) => value_named(t, 2),
        None => None,
    }
}

/// The features of a table.
pub open spec fn features_of(f: RuleFeatures, t: RuleTable, low: u8, end: u8) -> bool {
    let cards = texts(t.hand_cards@);
    let level = text_of(t.hand_level);
    let partner = unless_empty(text_of(t.teammate_seat));
    &&& texts(f.legal_actions@) == texts(t.legal_actions@)
    &&& f.can_pass == texts(t.legal_actions@).contains("pass"@)
    &&& f.can_play == texts(t.legal_actions@).contains("play"@)
    &&& text_of(f.my_seat) == text_of(t.seat)
    &&& text_of(f.teammate_seat) == partner
    &&& text_of(f.top_play_seat) == text_of(t.top_seat)
    &&& f.my_hand_count == cards.len()
    &&& f.low_card_count == tally(cards, small_cards(level))
    &&& f.teammate_remaining == match partner {
        Some(seat) => reported(t.seats@, seat, 0),
        None => None,
    }
    &&& f.enemy_min_remaining == fewest_of_others(
        t.seats@,
        text_of(t.seat),
        partner,
        t.seats@.len() as int,
    )
    &&& f.enemy_low_cards_urgent == (f.enemy_min_remaining matches Some(n) && n <= low)
    &&& f.endgame_mode == (cards.len() <= end)
    &&& f.leading_new_trick == (t.top_seat is None)
    &&& f.bomb_count == bombs_guessed(cards, level)
    &&& text_of(f.top_play_kind) == text_of(t.top_kind)
    &&& f.medium_single_count == ranks_held(cards, level, 2, 12, 1)
    &&& f.small_pair_rank_count == ranks_held(cards, level, 2, 9, 2)
    &&& f.small_triple_rank_count == ranks_held(cards, level, 2, 9, 3)
    &&& f.top_play_value == match t.top_primary {
        Some(n) => Some(low_byte(n)),
        None => None,
    }
    &&& match f.level_rank {
        Some(v) => level_value(level) == Some(v as int),
        None => level_value(level) is None,
    }
}

fn lists(list: &Vec<String>, text: &str) -> (b: bool)
    ensures
        b == texts(list@).contains(text@),
{
    for i in 0..list.len()
        invariant
            forall|j: int| 0 <= j < i ==> #[trigger] texts(list@)[j] != text@,
    {
        assert(texts(list@)[i as int] == list@[i as int]@);
        if same_text(list[i].as_str(), text) {
            return true;
        }
    }
    assert(texts(list@).len() == list@.len());
    false
}

fn copy_text(text: &Option<String>) -> (copy: Option<String>)
    ensures
        text_of(copy) == text_of(*text),
{
    match text {
        Some(t) => Some(t.clone()),
        None => None,
    }
}

fn borrow_text(text: &Option<String>) -> (borrowed: Option<&str>)
    ensures
        level_text_of(borrowed) == text_of(*text),
{
    match text {
        Some(t) => Some(t.as_str()),
        None => None,
    }
}

fn byte_of(n: u64) -> (b: u8)
    ensures
        b == low_byte(n),
{
    (n % 256) as u8
}

fn find_reported(seats: &Vec<SeatLeft>, seat: &str) -> (n: Option<u8>)
    ensures
        n == reported(seats@, seat@, 0),
{
    let mut i: usize = 0;
    while i < seats.len()
        invariant
            i <= seats@.len(),
            reported(seats@, seat@, 0) == reported(seats@, seat@, i as int),
        decreases seats@.len() - i,
    {
        if same_text(seats[i].seat.as_str(), seat) {
            return match seats[i].left {
                Some(n) => Some(byte_of(n)),
                None => None,
            };
        }
        i = i + 1;
    }
    None
}

fn find_fewest(seats: &Vec<SeatLeft>, own: &Option<String>, partner: &Option<String>) -> (n: Option<
    u8,
>)
    ensures
        n == fewest_of_others(seats@, text_of(*own), text_of(*partner), seats@.len() as int),
{
    let mut best: Option<u8> = None;
    for i in 0..seats.len()
        invariant
            best == fewest_of_others(seats@, text_of(*own), text_of(*partner), i as int),
    {
        let seat = seats[i].seat.as_str();
        let skip = is_level(borrow_text(own), seat) || is_level(borrow_text(partner), seat);
        if !skip {
            if let Some(k) = seats[i].left {
                let n: u8 = byte_of(k);
                best = match best {
                    Some(b) => if b <= n {
                        Some(b)
                    } else {
                        Some(n)
                    },
                    None => Some(n),
                };
            }
        }
    }
    best
}

fn count_small(cards: &[String], hand_level: Option<&str>) -> (n: usize)
    ensures
        n == tally(texts(cards@), small_cards(level_text_of(hand_level))),
{
    let ghost list = texts(cards@);
    let ghost test = small_cards(level_text_of(hand_level));
    let mut n: usize = 0;
    assert(list.take(0) =~= Seq::<Seq<char>>::empty());
    for i in 0..cards.len()
        invariant
            list == texts(cards@),
            test == small_cards(level_text_of(hand_level)),
            n <= i,
            n == tally(list.take(i as int), test),
    {
        proof {
            lemma_tally_step(list, test, i as int);
            assert(list[i as int] == cards@[i as int]@);
        }
        if is_small_card_symbol(cards[i].as_str(), hand_level) {
            n = n + 1;
        }
    }
    assert(list.take(list.len() as int) =~= list);
    n
}

/// Works out the features of a table.
pub fn rule_features(
    table: &RuleTable,
    enemy_low_cards_threshold: u8,
    endgame_hand_count_threshold: u8,
) -> (f: RuleFeatures)
    ensures
        features_of(f, *table, enemy_low_cards_threshold, endgame_hand_count_threshold),
{
    let cards = table.hand_cards.as_slice();
    let level = borrow_text(&table.hand_level);
    let teammate_seat: Option<String> = match &table.teammate_seat {
        Some(s) => if s.as_str().is_empty() {
            None
        } else {
            Some(s.clone())
        },
        None => None,
    };
    let teammate_remaining: Option<u8> = match &teammate_seat {
        Some(s) => find_reported(&table.seats, s.as_str()),
        None => None,
    };
    let enemy_min_remaining: Option<u8> = find_fewest(&table.seats, &table.seat, &teammate_seat);
    let enemy_low_cards_urgent = match enemy_min_remaining {
        Some(n) => n <= enemy_low_cards_threshold,
        None => false,
    };
    let top_play_value: Option<u8> = match table.top_primary {
        Some(n) => Some(byte_of(n)),
        None => None,
    };
    let level_rank: Option<u8> = match level {
        Some(text) => read_value(text),
        None => None,
    };
    assert(texts(table.hand_cards@).len() == table.hand_cards@.len());
    RuleFeatures {
        legal_actions: copy_texts(table.legal_actions.as_slice()),
        can_pass: lists(&table.legal_actions, "pass"),
        can_play: lists(&table.legal_actions, "play"),
        my_seat: copy_text(&table.seat),
        teammate_seat,
        top_play_seat: copy_text(&table.top_seat),
        my_hand_count: cards.len(),
        low_card_count: count_small(cards, level),
        teammate_remaining,
        enemy_min_remaining,
        enemy_low_cards_urgent,
        endgame_mode: cards.len() <= endgame_hand_count_threshold as usize,
        leading_new_trick: table.top_seat.is_none(),
        bomb_count: count_bombs_in_hand(cards, level),
        top_play_kind: copy_text(&table.top_kind),
        medium_single_count: count_medium_singles(cards, level),
        small_pair_rank_count: count_small_pair_ranks(cards, level),
        small_triple_rank_count: count_small_triple_ranks(cards, level),
        top_play_value,
        level_rank,
    }
}

/// The JSON text of a field of the play on the table.
pub open spec fn top_field(state: Seq<char>, key: Seq<char>) -> Option<Seq<char>> {
    match nested_text(state, "hand"@, "topPlay"@) {
        Some(top) => json_field_text(top, key),
        None => None,
    }
}

/// The report about the `i`-th seat of a table given as JSON text.
pub open spec fn seat_reported(seats: Seq<char>, key: Seq<char>, r: SeatLeft) -> bool {
    r.seat@ == key && r.left == number_in(nested_text(seats, key, "remainingCount"@))
}

/// What a table, given as JSON text, reports.
pub open spec fn table_read(t: RuleTable, state: Seq<char>) -> bool {
    &&& texts(t.legal_actions@) == ({
        let list = items_in(nested_text(state, "expect"@, "legalActions"@));
        strings_among(list, list.len() as int)
    })
    &&& text_of(t.seat) == string_in(nested_text(state, "private"@, "seat"@))
    &&& text_of(t.teammate_seat) == string_in(nested_text(state, "private"@, "teammateSeat"@))
    &&& text_of(t.top_seat) == string_in(top_field(state, "seat"@))
    &&& texts(t.hand_cards@) == ({
        let list = items_in(nested_text(state, "private"@, "handCards"@));
        strings_among(list, list.len() as int)
    })
    &&& text_of(t.hand_level) == string_in(nested_text(state, "hand"@, "handLevel"@))
    &&& text_of(t.top_kind) == string_in(top_field(state, "combinationKind"@))
    &&& t.top_primary == number_in(top_field(state, "primary"@))
    &&& match json_field_text(state, "seats"@) {
        Some(seats) => match json_key_texts(seats) {
            Some(keys) => t.seats@.len() == keys.len() && forall|i: int|
                0 <= i < keys.len() ==> seat_reported(seats, keys[i], #[trigger] t.seats@[i]),
            None => t.seats@.len() == 0,
        },
        None => t.seats@.len() == 0,
    }
}

/// Reads a field of the play on the table, as JSON text.
pub fn read_top_field(state: &str, key: &str) -> (field: Option<String>)
    ensures
        text_of(field) == top_field(state@, key@),
{
    match read_nested(state, "hand", "topPlay") {
        Some(top) => read_field(top.as_str(), key),
        None => None,
    }
}

fn read_seats(state: &str) -> (list: Vec<SeatLeft>)
    ensures
        match json_field_text(state@, "seats"@) {
            Some(seats) => match json_key_texts(seats) {
                Some(keys) => list@.len() == keys.len() && forall|i: int|
                    0 <= i < keys.len() ==> seat_reported(seats, keys[i], #[trigger] list@[i]),
                None => list@.len() == 0,
            },
            None => list@.len() == 0,
        },
{
    let mut out: Vec<SeatLeft> = Vec::new();
    let seats = match read_field(state, "seats") {
        Some(s) => s,
        None => {
            return out;
        },
    };
    let keys = match read_keys(seats.as_str()) {
        Some(k) => k,
        None => {
            return out;
        },
    };
    for i in 0..keys.len()
        invariant
            out@.len() == i,
            forall|j: int|
                0 <= j < i ==> seat_reported(seats@, texts(keys@)[j], #[trigger] out@[j]),
    {
        assert(texts(keys@)[i as int] == keys@[i as int]@);
        let left: Option<u64> = number_of(
            read_nested(seats.as_str(), keys[i].as_str(), "remainingCount"),
        );
        out.push(SeatLeft { seat: keys[i].clone(), left });
    }
    assert(texts(keys@).len() == keys@.len());
    out
}

/// Reads what a table, given as JSON text, reports.
pub fn read_rule_table(state: &str) -> (table: RuleTable)
    ensures
        table_read(table, state@),
{
    let legal = items_of(read_nested(state, "expect", "legalActions"));
    let cards = items_of(read_nested(state, "private", "handCards"));
    assert(texts(legal@).len() == legal@.len());
    assert(texts(cards@).len() == cards@.len());
    RuleTable {
        legal_actions: strings_of(&legal),
        seat: string_of(read_nested(state, "private", "seat")),
        teammate_seat: string_of(read_nested(state, "private", "teammateSeat")),
        top_seat: string_of(read_top_field(state, "seat")),
        hand_cards: strings_of(&cards),
        hand_level: string_of(read_nested(state, "hand", "handLevel")),
        seats: read_seats(state),
        top_kind: string_of(read_top_field(state, "combinationKind")),
        top_primary: number_of(read_top_field(state, "primary")),
    }
}

/// Reads the features of a table that is given as JSON text.
pub fn extract_rule_features(
    state: &str,
    enemy_low_cards_threshold: u8,
    endgame_hand_count_threshold: u8,
) -> (f: RuleFeatures)
    ensures
        exists|t: RuleTable| #[trigger] table_read(t, state@) && features_of(
            f,
            t,
            enemy_low_cards_threshold,
            endgame_hand_count_threshold,
        ),
{
    let table = read_rule_table(state);
    rule_features(&table, enemy_low_cards_threshold, endgame_hand_count_threshold)
}

proof fn lemma_fewest_of_others(
    seats: Seq<SeatLeft>,
    own: Option<Seq<char>>,
    partner: Option<Seq<char>>,
    n: int,
)
    requires
        0 <= n <= seats.len(),
    ensures
        match fewest_of_others(seats, own, partner, n) {
            Some(least) => (exists|i: int|
                0 <= i < n && own != Some((#[trigger] seats[i]).seat@) && partner != Some(
                    seats[i].seat@,
                ) && (seats[i].left matches Some(k) && low_byte(k) == least)) && forall|i: int|
                0 <= i < n && own != Some((#[trigger] seats[i]).seat@) && partner != Some(
                    seats[i].seat@,
                ) ==> (seats[i].left matches Some(k) ==> least <= low_byte(k)),
            None => forall|i: int|
                0 <= i < n && own != Some((#[trigger] seats[i]).seat@) && partner != Some(
                    seats[i].seat@,
                ) ==> seats[i].left is None,
        },
    decreases n,
{
    if n > 0 {
        lemma_fewest_of_others(seats, own, partner, n - 1);
        assert(seats[n - 1] == seats[n - 1]);
    }
}

/// The opponent with fewest cards is found among those who are neither the own seat nor the
/// partner's; the table is urgent where that one is at or below the threshold, and nobody's number
/// makes it so where none is reported.
pub proof fn opponents_make_a_table_urgent(f: RuleFeatures, t: RuleTable, low: u8, end: u8, i: int)
    requires
        features_of(f, t, low, end),
        0 <= i < t.seats@.len(),
        text_of(t.seat) != Some(t.seats@[i].seat@),
        text_of(t.teammate_seat) != Some(t.seats@[i].seat@),
    ensures
        t.seats@[i].left matches Some(k) ==> (k <= 255 ==> (f.enemy_min_remaining matches Some(n) && n
            <= k)),
        t.seats@[i].left matches Some(k) ==> (k <= low ==> f.enemy_low_cards_urgent),
        f.enemy_low_cards_urgent ==> exists|j: int|
            0 <= j < t.seats@.len() && text_of(t.seat) != Some((#[trigger] t.seats@[j]).seat@) && (
            t.seats@[j].left matches Some(k) && k % 256 <= low),
        f.endgame_mode <==> f.my_hand_count <= end,
        f.leading_new_trick <==> t.top_seat is None,
{
    lemma_fewest_of_others(
        t.seats@,
        text_of(t.seat),
        unless_empty(text_of(t.teammate_seat)),
        t.seats@.len() as int,
    );
    assert(t.seats@[i] == t.seats@[i]);
}

/// Small cards are those from two to ten that are not of the level; court cards and aces are none.
pub proof fn small_cards_run_to_ten(card: Seq<char>, level: Option<Seq<char>>, v: int)
    requires
        2 <= v <= 14,
        rank_token(card) == Some(rank_text(rank_at(v))),
    ensures
        v <= 10 && level != Some(rank_text(rank_at(v))) ==> small_card(card, level),
        v <= 10 && level == Some(rank_text(rank_at(v))) ==> !small_card(card, level),
        v > 10 ==> !small_card(card, level),
{
    if v <= 10 {
        assert(shows_rank(v)(card));
    }
    if small_card(card, level) {
        let u = choose|u: int|
            2 <= u <= 10 && #[trigger] shows_rank(u)(card) && level != Some(rank_text(rank_at(u)));
        assert(rank_text(rank_at(u)) == rank_text(rank_at(v)));
        assert(rank_text(rank_at(u))[0] == rank_text(rank_at(v))[0]);
    }
}

proof fn lemma_groups(tokens: Seq<Seq<char>>, test: spec_fn(nat) -> bool, n: int, i: int)
    requires
        0 <= i < n <= tokens.len(),
        test(tally(tokens, same_token(tokens[i]))),
    ensures
        groups_among(tokens, test, n) >= 1,
    decreases n, i,
{
    if i < n - 1 {
        lemma_groups(tokens, test, n - 1, i);
    } else if tokens.take(n - 1).contains(tokens[n - 1]) {
        let front = tokens.take(n - 1);
        let k = choose|k: int| 0 <= k < front.len() && front[k] == tokens[n - 1];
        assert(tokens[k] == tokens[i]);
        lemma_groups(tokens, test, n - 1, k);
    }
}

proof fn lemma_no_groups(tokens: Seq<Seq<char>>, test: spec_fn(nat) -> bool, n: int)
    requires
        0 <= n <= tokens.len(),
        forall|i: int|
            0 <= i < n ==> !test(tally(tokens, same_token(#[trigger] tokens[i]))),
    ensures
        groups_among(tokens, test, n) == 0,
    decreases n,
{
    if n > 0 {
        lemma_no_groups(tokens, test, n - 1);
        assert(!test(tally(tokens, same_token(tokens[n - 1]))));
    }
}

/// A hand with four cards of a rank has a bomb, and so has one with a wild card and three of a
/// rank; without wild cards, runs of five in a suit and four of a rank it has none.
pub proof fn groups_of_four_are_bombs(cards: Seq<Seq<char>>, level: Option<Seq<char>>, i: int)
    ensures
        ({
            let tokens = tokens_of(cards, level, cards.len() as int);
            let w = tally(cards, wild_texts(level));
            let runs = runs_among(cards, level, cards.len() as int);
            &&& 0 <= i < tokens.len() && tally(tokens, same_token(tokens[i])) >= 4 ==> bombs_guessed(
                cards,
                level,
            ) >= 1
            &&& 0 <= i < tokens.len() && tally(tokens, same_token(tokens[i])) == 3 && w >= 1
                ==> bombs_guessed(cards, level) >= 1
            &&& w == 0 && runs == 0 && (forall|k: int|
                0 <= k < tokens.len() ==> tally(tokens, same_token(#[trigger] tokens[k])) < 4)
                ==> bombs_guessed(cards, level) == 0
            &&& bombs_guessed(cards, level) >= runs
        }),
{
    let tokens = tokens_of(cards, level, cards.len() as int);
    let n = tokens.len() as int;
    let four = |k: nat| k >= 4;
    let three = |k: nat| k == 3;
    if 0 <= i < n && four(tally(tokens, same_token(tokens[i]))) {
        lemma_groups(tokens, four, n, i);
    }
    if 0 <= i < n && three(tally(tokens, same_token(tokens[i]))) {
        lemma_groups(tokens, three, n, i);
    }
    if forall|k: int| 0 <= k < n ==> tally(tokens, same_token(#[trigger] tokens[k])) < 4 {
        assert forall|k: int| 0 <= k < n implies !four(
            tally(tokens, same_token(#[trigger] tokens[k])),
        ) by {}
        lemma_no_groups(tokens, four, n);
    }
}

} // verus!
