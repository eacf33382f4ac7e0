//! Keeping track of the cards that have been seen.

use vstd::prelude::*;
use crate::cards::{Card, Rank, Suit, card_ok, natural};
use crate::combination_parser::{
    count_rank, lemma_rank_at, number_of_rank, rank_at, rank_from_value,
};
use crate::domain::{Seat, partner_of};
use crate::leftovers::lesser;
use crate::movegen::{black_joker, red_joker, suit_at};
use crate::play_context::{
    Chance, Odds, first_opponent, never, rank_slot, seat_index, seat_number, second_opponent, slot,
};
use crate::tally::{copy_all, count_where, tally};

verus! {

/// What has been seen of a hand.
#[derive(Debug)]
pub struct HandTracker {
    /// The plays so far.
    pub played_cards: Vec<(Seat, Vec<Card>)>,
    /// The cards seen so far, each once.
    pub known_cards: Vec<Card>,
    /// The cards of one deck that have not been seen.
    pub remaining_card_pool: Vec<Card>,
    pub hand_level: Option<Rank>,
    /// Number of cards at each seat, in table order.
    pub seat_remaining_counts: Vec<usize>,
    my_seat: Seat,
}

/// The contents of a tracker.
pub ghost struct Seen {
    pub played: Seq<(Seat, Seq<Card>)>,
    pub known: Set<Card>,
    pub pool: Seq<Card>,
    pub level: Option<Rank>,
    pub left: Seq<usize>,
    pub me: Seat,
}

impl View for HandTracker {
    type V = Seen;

    closed spec fn view(&self) -> Seen {
        Seen {
            played: self.played_cards@.map_values(|e: (Seat, Vec<Card>)| (e.0, e.1@)),
            known: self.known_cards@.to_set(),
            pool: self.remaining_card_pool@,
            level: self.hand_level,
            left: self.seat_remaining_counts@,
            me: self.my_seat,
        }
    }
}

/// One deck: each suit from three up to two, and two jokers.
pub open spec fn one_deck_card(i: int) -> Card {
    if i == 52 {
        black_joker()
    } else if i == 53 {
        red_joker()
    } else {
        Card {
            suit: suit_at(i / 13),
            rank: if i % 13 == 12 {
                Rank::Two
            } else {
                rank_at(i % 13 + 3)
            },
        }
    }
}

/// One deck.
pub open spec fn one_deck() -> Seq<Card> {
    Seq::new(54, |i: int| one_deck_card(i))
}

/// The first place of a card from place `i` on.
pub open spec fn place_of(pool: Seq<Card>, card: Card, i: int) -> Option<int>
    decreases pool.len() - i,
{
    if i < 0 || i >= pool.len() {
        None
    } else if pool[i] == card {
        Some(i)
    } else {
        place_of(pool, card, i + 1)
    }
}

/// A pool without the first copy of a card.
pub open spec fn without_one(pool: Seq<Card>, card: Card) -> Seq<Card> {
    match place_of(pool, card, 0) {
        Some(i) => pool.remove(i),
        None => pool,
    }
}

/// A pool without the first copies of the first `n` cards.
pub open spec fn without_first(pool: Seq<Card>, cards: Seq<Card>, n: int) -> Seq<Card>
    decreases n,
{
    if n <= 0 {
        pool
    } else {
        without_one(without_first(pool, cards, n - 1), cards[n - 1])
    }
}

impl Seen {
    /// Nothing seen yet, 25 cards at each seat.
    pub open spec fn fresh(me: Seat) -> Seen {
        Seen {
            played: Seq::empty(),
            known: Set::empty(),
            pool: Seq::empty(),
            level: None,
            left: seq![25usize, 25usize, 25usize, 25usize],
            me,
        }
    }

    pub open spec fn left_at(self, seat: Seat) -> usize {
        self.left[seat_number(seat)]
    }

    /// After seeing the own hand.
    pub open spec fn dealt(self, hand: Seq<Card>, level: Option<Rank>) -> Seen {
        let known = self.known.union(hand.to_set());
        Seen {
            known,
            pool: one_deck().filter(|c: Card| !known.contains(c)),
            level,
            ..self
        }
    }

    /// After a play.
    pub open spec fn after_play(self, seat: Seat, cards: Seq<Card>) -> Seen {
        let n = self.left_at(seat);
        Seen {
            played: self.played.push((seat, cards)),
            known: self.known.union(cards.to_set()),
            pool: without_first(self.pool, cards, cards.len() as int),
            left: self.left.update(
                seat_number(seat),
                if n >= cards.len() {
                    (n - cards.len()) as usize
                } else {
                    0
                },
            ),
            ..self
        }
    }

    /// With another number of cards at a seat.
    pub open spec fn with_count(self, seat: Seat, count: usize) -> Seen {
        Seen { left: self.left.update(seat_number(seat), count), ..self }
    }

    /// Numbers of cards whose products fit into 128 bits.
    pub open spec fn seats_sized(self) -> bool {
        &&& self.left_at(Seat::E) <= 0x80_0000_0000_0000
        &&& self.left_at(Seat::S) <= 0x80_0000_0000_0000
        &&& self.left_at(Seat::W) <= 0x80_0000_0000_0000
        &&& self.left_at(Seat::N) <= 0x80_0000_0000_0000
    }

    /// Chance that a seat holds a card of a rank.
    pub open spec fn rank_odds(self, seat: Seat, rank: Rank) -> Odds {
        let t = self.pool.len() as int;
        if seat == self.me || self.left_at(seat) == 0 || t == 0 {
            never()
        } else {
            Odds {
                num: count_rank(self.pool, rank) * lesser(self.left_at(seat) as int, t),
                den: t * t,
            }
        }
    }

    /// Twentieths of a chance of a bomb that the pool gives from value `v` on.
    pub open spec fn bomb_points(self, v: int) -> int
        decreases 15 - v,
    {
        if v > 14 {
            0
        } else {
            let n = count_rank(self.pool, rank_at(v));
            self.bomb_points(v + 1) + if n >= 4 {
                4int
            } else if n >= 3 {
                2int
            } else if n >= 2 {
                1int
            } else {
                0int
            }
        }
    }

    /// Chance that a seat holds a bomb.
    pub open spec fn bomb_odds(self, seat: Seat) -> Odds {
        if seat == self.me || self.left_at(seat) < 4 {
            Odds { num: 0, den: 400 }
        } else {
            Odds {
                num: lesser(self.bomb_points(2), 20) * lesser(self.left_at(seat) as int, 20),
                den: 400,
            }
        }
    }

    /// Chance that a seat can follow a rank.
    pub open spec fn follow_odds(self, seat: Seat, rank: Rank) -> Odds {
        let t = self.pool.len() as int;
        if seat == self.me || self.left_at(seat) == 0 || t == 0 {
            never()
        } else {
            Odds { num: tally(self.pool, at_least(rank)) as int, den: t }
        }
    }
}

/// Cards of a slot at or above that of a rank.
pub open spec fn at_least(rank: Rank) -> spec_fn(Card) -> bool {
    |c: Card| slot(c.rank) >= slot(rank)
}

fn generate_all_cards() -> (cards: Vec<Card>)
    ensures
        cards@ == one_deck(),
{
    let mut cards: Vec<Card> = Vec::new();
    for i in 0..52
        invariant
            cards@ =~= one_deck().take(i as int),
    {
        let suit = match i / 13 {
            0 => Suit::Spades,
            1 => Suit::Hearts,
            2 => Suit::Diamonds,
            _ => Suit::Clubs,
        };
        let at: usize = i % 13;
        let rank = if at == 12 {
            Rank::Two
        } else {
            rank_from_value((at + 3) as u8)
        };
        cards.push(Card { suit, rank });
        assert(cards@[i as int] == one_deck_card(i as int));
    }
    cards.push(Card { suit: Suit::Joker, rank: Rank::BlackJoker });
    cards.push(Card { suit: Suit::Joker, rank: Rank::RedJoker });
    assert(cards@ =~= one_deck());
    cards
}

fn has_card(cards: &Vec<Card>, card: Card) -> (b: bool)
    ensures
        b == cards@.to_set().contains(card),
{
    for i in 0..cards.len()
        invariant
            forall|j: int| 0 <= j < i ==> #[trigger] cards@[j] != card,
    {
        if cards[i] == card {
            assert(cards@.contains(card));
            return true;
        }
    }
    assert(!cards@.contains(card));
    false
}

fn learn(known: &mut Vec<Card>, card: Card)
    ensures
        final(known)@.to_set() == old(known)@.to_set().insert(card),
{
    let ghost before = known@;
    if !has_card(known, card) {
        known.push(card);
        assert(known@.to_set() =~= before.to_set().insert(card)) by {
            assert forall|c: Card| known@.contains(c) == before.to_set().insert(card).contains(
                c,
            ) by {
                if before.contains(c) {
                    let i = before.index_of(c);
                    assert(known@[i] == c);
                }
                if c == card {
                    assert(known@[before.len() as int] == c);
                }
            }
        }
    } else {
        assert(known@.to_set() =~= before.to_set().insert(card));
    }
}

fn learn_all(known: &mut Vec<Card>, cards: &[Card])
    ensures
        final(known)@.to_set() == old(known)@.to_set().union(cards@.to_set()),
{
    let ghost before = known@.to_set();
    assert(before =~= before.union(cards@.take(0).to_set()));
    for i in 0..cards.len()
        invariant
            known@.to_set() == before.union(cards@.take(i as int).to_set()),
    {
        learn(known, cards[i]);
        proof {
            let part = cards@.take(i as int);
            let more = cards@.take(i + 1);
            assert(more =~= part.push(cards@[i as int]));
            assert(known@.to_set() =~= before.union(more.to_set())) by {
                assert forall|c: Card| more.contains(c) == (part.contains(c) || c
                    == cards@[i as int]) by {
                    if part.contains(c) {
                        let j = part.index_of(c);
                        assert(more[j] == c);
                    }
                    if c == cards@[i as int] {
                        assert(more[i as int] == c);
                    }
                }
            }
        }
    }
    assert(cards@.take(cards@.len() as int) =~= cards@);
}

fn remove_one(pool: &mut Vec<Card>, card: Card)
    ensures
        final(pool)@ == without_one(old(pool)@, card),
{
    let mut i: usize = 0;
    while i < pool.len()
        invariant
            i <= pool@.len(),
            pool@ == old(pool)@,
            place_of(pool@, card, 0) == place_of(pool@, card, i as int),
        decreases pool@.len() - i,
    {
        if pool[i] == card {
            pool.remove(i);
            return ;
        }
        i = i + 1;
    }
}

proof fn lemma_dealt_pool(s: Seen, hand: Seq<Card>, level: Option<Rank>)
    ensures
        s.dealt(hand, level).pool.len() <= 54,
{
    let known = s.known.union(hand.to_set());
    lemma_filter_shrinks(one_deck(), |c: Card| !known.contains(c));
}

proof fn lemma_filter_shrinks(list: Seq<Card>, test: spec_fn(Card) -> bool)
    ensures
        list.filter(test).len() <= list.len(),
    decreases list.len(),
{
    reveal(Seq::filter);
    if list.len() > 0 {
        lemma_filter_shrinks(list.drop_last(), test);
    }
}

impl HandTracker {
    /// There is a number for each seat, and no more unseen cards than one deck has.
    pub open spec fn wf(&self) -> bool {
        self@.left.len() == 4 && self@.pool.len() <= 54
    }

    /// Nothing seen yet, 25 cards at each seat.
    pub fn new(my_seat: Seat) -> (tracker: Self)
        ensures
            tracker@ == Seen::fresh(my_seat),
            tracker.wf(),
    {
        let tracker = HandTracker {
            played_cards: Vec::new(),
            known_cards: Vec::new(),
            remaining_card_pool: Vec::new(),
            hand_level: None,
            seat_remaining_counts: vec![25, 25, 25, 25],
            my_seat,
        };
        proof {
            let s = tracker@;
            let f = Seen::fresh(my_seat);
            assert(s.played =~= f.played);
            assert(s.known =~= f.known);
            assert(s.pool =~= f.pool);
            assert(s.left =~= f.left);
        }
        tracker
    }

    /// A tracker with the same contents.
    pub fn duplicate(&self) -> (copy: Self)
        ensures
            copy@ == self@,
    {
        let mut played: Vec<(Seat, Vec<Card>)> = Vec::new();
        for i in 0..self.played_cards.len()
            invariant
                played@.len() == i,
                forall|j: int|
                    0 <= j < i ==> (#[trigger] played@[j]).0 == self.played_cards@[j].0
                        && played@[j].1@ == self.played_cards@[j].1@,
        {
            let entry = &self.played_cards[i];
            played.push((entry.0, copy_all(entry.1.as_slice())));
        }
        let copy = HandTracker {
            played_cards: played,
            known_cards: copy_all(self.known_cards.as_slice()),
            remaining_card_pool: copy_all(self.remaining_card_pool.as_slice()),
            hand_level: self.hand_level,
            seat_remaining_counts: copy_all(self.seat_remaining_counts.as_slice()),
            my_seat: self.my_seat,
        };
        assert(copy@.played =~= self@.played);
        copy
    }

    /// Whether any card has been seen.
    pub fn is_initialized(&self) -> (b: bool)
        ensures
            b == (self@.known != Set::<Card>::empty()),
    {
        proof {
            if self.known_cards@.len() > 0 {
                assert(self.known_cards@.contains(self.known_cards@[0]));
                assert(self@.known.contains(self.known_cards@[0]));
            } else {
                assert(self@.known =~= Set::<Card>::empty());
            }
        }
        self.known_cards.len() > 0
    }

    /// Forgets everything but the own seat.
    pub fn reset(&mut self)
        ensures
            final(self)@ == Seen::fresh(old(self)@.me),
            final(self).wf(),
    {
        *self = HandTracker::new(self.my_seat);
    }

    /// Changes the own seat.
    pub fn set_my_seat(&mut self, seat: Seat)
        ensures
            final(self)@ == (Seen { me: seat, ..old(self)@ }),
    {
        self.my_seat = seat;
    }

    /// Takes in the own hand and the level.
    pub fn init(&mut self, my_hand: &[Card], level_rank: Option<Rank>)
        ensures
            final(self)@ == old(self)@.dealt(my_hand@, level_rank),
            old(self).wf() ==> final(self).wf(),
    {
        proof {
            lemma_dealt_pool(self@, my_hand@, level_rank);
        }
        self.hand_level = level_rank;
        learn_all(&mut self.known_cards, my_hand);
        let all = generate_all_cards();
        let ghost known = self.known_cards@.to_set();
        let ghost unknown = |c: Card| !known.contains(c);
        let mut pool: Vec<Card> = Vec::new();
        proof {
            reveal(Seq::filter);
            assert(all@.take(0) =~= Seq::<Card>::empty());
        }
        for i in 0..all.len()
            invariant
                known == self.known_cards@.to_set(),
                unknown == (|c: Card| !known.contains(c)),
                pool@ == all@.take(i as int).filter(unknown),
        {
            proof {
                reveal(Seq::filter);
                assert(all@.take(i + 1).drop_last() =~= all@.take(i as int));
            }
            if !has_card(&self.known_cards, all[i]) {
                pool.push(all[i]);
            }
        }
        assert(all@.take(all@.len() as int) =~= all@);
        self.remaining_card_pool = pool;
    }

    /// Takes in a play.
    pub fn update_play(&mut self, seat: Seat, cards: &[Card])
        requires
            old(self).wf(),
        ensures
            final(self)@ == old(self)@.after_play(seat, cards@),
            final(self).wf(),
    {
        let ghost before = self@;
        proof {
            seen_stays_seen(before, seat, cards@);
        }
        self.played_cards.push((seat, copy_all(cards)));
        learn_all(&mut self.known_cards, cards);
        let ghost start = self.remaining_card_pool@;
        for i in 0..cards.len()
            invariant
                self.remaining_card_pool@ == without_first(start, cards@, i as int),
                self.played_cards == old(self).played_cards
                    || self.played_cards@.len() == before.played.len() + 1,
                self@.played == before.played.push((seat, cards@)),
                self.known_cards@.to_set() == before.known.union(cards@.to_set()),
                self.hand_level == before.level,
                self.seat_remaining_counts@ == before.left,
                self.my_seat == before.me,
        {
            remove_one(&mut self.remaining_card_pool, cards[i]);
        }
        let at: usize = seat_index(seat);
        let n: usize = self.seat_remaining_counts[at];
        self.seat_remaining_counts[at] = if n >= cards.len() {
            n - cards.len()
        } else {
            0
        };
    }

    /// Takes in a pass, which shows no card.
    pub fn update_pass(&mut self, seat: Seat)
        ensures
            final(self)@ == old(self)@,
    {
    }

    /// Takes in the number of cards at a seat.
    pub fn update_seat_count(&mut self, seat: Seat, count: usize)
        requires
            old(self).wf(),
        ensures
            final(self)@ == old(self)@.with_count(seat, count),
            final(self).wf(),
    {
        let at: usize = seat_index(seat);
        self.seat_remaining_counts[at] = count;
    }

    /// Number of cards at a seat.
    pub fn get_remaining_count(&self, seat: Seat) -> (n: usize)
        requires
            self.wf(),
        ensures
            n == self@.left_at(seat),
    {
        self.seat_remaining_counts[seat_index(seat)]
    }

    fn least(a: usize, b: usize) -> (m: usize)
        ensures
            m == lesser(a as int, b as int),
    {
        if a <= b {
            a
        } else {
            b
        }
    }

    /// Chance that a seat holds a card of a rank.
    pub fn get_prob_rank_in_hand(&self, seat: Seat, rank: Rank) -> (chance: Chance)
        requires
            self.wf(),
        ensures
            chance@ == self@.rank_odds(seat, rank),
            chance.num <= chance.den,
            chance.den > 0,
    {
        let own: usize = self.get_remaining_count(seat);
        let total: usize = self.remaining_card_pool.len();
        if seat == self.my_seat || own == 0 || total == 0 {
            return Chance { num: 0, den: 1 };
        }
        let n: usize = number_of_rank(self.remaining_card_pool.as_slice(), rank);
        let share: usize = Self::least(own, total);
        proof {
            assert(0 <= n * share <= total * total && total * total
                <= 0xffff_ffff_ffff_ffff * 0xffff_ffff_ffff_ffff && total * total > 0)
                by (nonlinear_arith)
                requires
                    0 <= n <= total,
                    0 <= share <= total,
                    0 < total <= 0xffff_ffff_ffff_ffff,
            ;
        }
        Chance { num: n as u128 * share as u128, den: total as u128 * total as u128 }
    }

    /// Chance that a seat holds a bomb.
    pub fn get_prob_has_bomb(&self, seat: Seat) -> (chance: Chance)
        requires
            self.wf(),
        ensures
            chance@ == self@.bomb_odds(seat),
            chance.num <= 400,
            chance.den == 400,
    {
        let own: usize = self.get_remaining_count(seat);
        if seat == self.my_seat || own < 4 {
            return Chance { num: 0, den: 400 };
        }
        let mut points: usize = 0;
        let mut v: u8 = 14;
        while v >= 2
            invariant
                1 <= v <= 14,
                points <= 4 * (14 - v),
                points == self@.bomb_points(v + 1),
            decreases v,
        {
            let n: usize = number_of_rank(
                self.remaining_card_pool.as_slice(),
                rank_from_value(v),
            );
            if n >= 4 {
                points = points + 4;
            } else if n >= 3 {
                points = points + 2;
            } else if n >= 2 {
                points = points + 1;
            }
            v = v - 1;
        }
        let a: u128 = Self::least(points, 20) as u128;
        let b: u128 = Self::least(own, 20) as u128;
        proof {
            assert(a * b <= 400) by (nonlinear_arith)
                requires
                    0 <= a <= 20,
                    0 <= b <= 20,
            ;
        }
        Chance { num: a * b, den: 400 }
    }

    /// Chance that a seat can follow a rank.
    pub fn get_prob_can_follow(&self, seat: Seat, min_rank: Rank) -> (chance: Chance)
        requires
            self.wf(),
        ensures
            chance@ == self@.follow_odds(seat, min_rank),
            chance.num <= chance.den,
            chance.den > 0,
            chance.den <= 1 || chance.den == self@.pool.len(),
    {
        let total: usize = self.remaining_card_pool.len();
        if seat == self.my_seat || self.get_remaining_count(seat) == 0 || total == 0 {
            return Chance { num: 0, den: 1 };
        }
        let bar: u8 = rank_slot(min_rank);
        let high = |c: Card| -> (b: bool)
            ensures
                b == (slot(c.rank) >= slot(min_rank)),
            { rank_slot(c.rank) >= bar };
        let n: usize = count_where(
            self.remaining_card_pool.as_slice(),
            high,
            Ghost(at_least(min_rank)),
        );
        Chance { num: n as u128, den: total as u128 }
    }

    /// Number of cards that a team holds.
    pub fn get_team_remaining(&self, seat: Seat) -> (n: usize)
        requires
            self.wf(),
            self@.left_at(seat) + self@.left_at(partner_of(seat)) <= usize::MAX,
        ensures
            n == self@.left_at(seat) + self@.left_at(partner_of(seat)),
    {
        self.get_remaining_count(seat) + self.get_remaining_count(seat.teammate())
    }

    /// Number of cards that a seat's opponents hold.
    pub fn get_enemy_remaining(&self, seat: Seat) -> (n: usize)
        requires
            self.wf(),
            self@.left_at(first_opponent(seat)) + self@.left_at(second_opponent(seat))
                <= usize::MAX,
        ensures
            n == self@.left_at(first_opponent(seat)) + self@.left_at(second_opponent(seat)),
    {
        match seat {
            Seat::E | Seat::W => self.get_remaining_count(Seat::S) + self.get_remaining_count(
                Seat::N,
            ),
            Seat::S | Seat::N => self.get_remaining_count(Seat::E) + self.get_remaining_count(
                Seat::W,
            ),
        }
    }

    /// Whether a seat is the own one.
    pub fn is_my_seat(&self, seat: Seat) -> (b: bool)
        ensures
            b == (seat == self@.me),
    {
        seat == self.my_seat
    }

    /// Number of unseen cards of a rank.
    pub fn count_in_pool(&self, rank: Rank) -> (n: usize)
        ensures
            n == count_rank(self@.pool, rank),
            n <= self@.pool.len(),
    {
        number_of_rank(self.remaining_card_pool.as_slice(), rank)
    }

    /// Number of unseen cards.
    pub fn get_remaining_pool_size(&self) -> (n: usize)
        ensures
            n == self@.pool.len(),
    {
        self.remaining_card_pool.len()
    }

    /// Whether any seat is down to a number of cards.
    pub fn is_endgame(&self, threshold: u8) -> (b: bool)
        requires
            self.wf(),
        ensures
            b == exists|seat: Seat| #[trigger] self@.left_at(seat) <= threshold,
    {
        let t: usize = threshold as usize;
        let found = self.get_remaining_count(Seat::E) <= t || self.get_remaining_count(Seat::S) <= t
            || self.get_remaining_count(Seat::W) <= t || self.get_remaining_count(Seat::N) <= t;
        proof {
            if found {
                assert(self@.left_at(Seat::E) <= threshold || self@.left_at(Seat::S) <= threshold
                    || self@.left_at(Seat::W) <= threshold || self@.left_at(Seat::N) <= threshold);
            }
        }
        found
    }

    /// Whether a play has been taken in before.
    pub fn has_recorded(&self, seat: Seat, cards: &Vec<Card>) -> (b: bool)
        ensures
            b == self@.played.contains((seat, cards@)),
    {
        for i in 0..self.played_cards.len()
            invariant
                forall|j: int| 0 <= j < i ==> #[trigger] self@.played[j] != (seat, cards@),
        {
            assert(self@.played[i as int] == (
                self.played_cards@[i as int].0,
                self.played_cards@[i as int].1@,
            ));
            if self.played_cards[i].0 == seat && same_cards(&self.played_cards[i].1, cards) {
                assert(self@.played.contains((seat, cards@)));
                return true;
            }
        }
        assert(self@.played.len() == self.played_cards@.len());
        false
    }
}

fn same_cards(a: &Vec<Card>, b: &Vec<Card>) -> (same: bool)
    ensures
        same == (a@ == b@),
{
    if a.len() != b.len() {
        return false;
    }
    for i in 0..a.len()
        invariant
            a@.len() == b@.len(),
            forall|j: int| 0 <= j < i ==> #[trigger] a@[j] == b@[j],
    {
        if a[i] != b[i] {
            return false;
        }
    }
    assert(a@ =~= b@);
    true
}

/// What is seen stays seen, and a play never puts a card back into the pool.
pub proof fn seen_stays_seen(s: Seen, seat: Seat, cards: Seq<Card>)
    ensures
        s.known.subset_of(s.after_play(seat, cards).known),
        cards.to_set().subset_of(s.after_play(seat, cards).known),
        s.after_play(seat, cards).pool.len() <= s.pool.len(),
{
    lemma_without_first(s.pool, cards, cards.len() as int);
}

proof fn lemma_place_of(pool: Seq<Card>, card: Card, i: int)
    requires
        0 <= i,
    ensures
        place_of(pool, card, i) matches Some(j) ==> i <= j < pool.len() && pool[j] == card,
    decreases pool.len() - i,
{
    if i < pool.len() && pool[i] != card {
        lemma_place_of(pool, card, i + 1);
    }
}

proof fn lemma_without_first(pool: Seq<Card>, cards: Seq<Card>, n: int)
    ensures
        without_first(pool, cards, n).len() <= pool.len(),
    decreases n,
{
    if n > 0 {
        lemma_without_first(pool, cards, n - 1);
        lemma_place_of(without_first(pool, cards, n - 1), cards[n - 1], 0);
    }
}

/// No unseen card is known, and none is in the pool twice.
pub open spec fn apart(s: Seen) -> bool {
    s.pool.no_duplicates() && forall|i: int|
        0 <= i < s.pool.len() ==> !s.known.contains(#[trigger] s.pool[i])
}

proof fn lemma_remove_apart(pool: Seq<Card>, i: int)
    requires
        0 <= i < pool.len(),
        pool.no_duplicates(),
    ensures
        pool.remove(i).no_duplicates(),
        !pool.remove(i).contains(pool[i]),
        forall|j: int| 0 <= j < pool.remove(i).len() ==> pool.contains(#[trigger] pool.remove(i)[j]),
{
    let less = pool.remove(i);
    assert forall|j: int| 0 <= j < less.len() implies pool.contains(#[trigger] less[j]) by {
        if j < i {
            assert(less[j] == pool[j]);
        } else {
            assert(less[j] == pool[j + 1]);
        }
    }
}

proof fn lemma_place_found(pool: Seq<Card>, card: Card, i: int, j: int)
    requires
        0 <= i <= j < pool.len(),
        pool[j] == card,
    ensures
        place_of(pool, card, i) is Some,
    decreases j - i,
{
    if pool[i] != card {
        lemma_place_found(pool, card, i + 1, j);
    }
}

proof fn lemma_without_apart(pool: Seq<Card>, cards: Seq<Card>, n: int)
    requires
        0 <= n <= cards.len(),
        pool.no_duplicates(),
    ensures
        without_first(pool, cards, n).no_duplicates(),
        forall|j: int|
            0 <= j < without_first(pool, cards, n).len() ==> pool.contains(
                #[trigger] without_first(pool, cards, n)[j],
            ) && !cards.take(n).contains(without_first(pool, cards, n)[j]),
    decreases n,
{
    if n > 0 {
        lemma_without_apart(pool, cards, n - 1);
        let before = without_first(pool, cards, n - 1);
        let after = without_first(pool, cards, n);
        let card = cards[n - 1];
        lemma_place_of(before, card, 0);
        match place_of(before, card, 0) {
            Some(i) => {
                lemma_remove_apart(before, i);
            },
            None => {
                if before.contains(card) {
                    lemma_place_found(before, card, 0, before.index_of(card));
                }
            },
        }
        assert forall|j: int| 0 <= j < after.len() implies pool.contains(#[trigger] after[j])
            && !cards.take(n).contains(after[j]) by {
            assert(after.contains(after[j]));
            assert(before.contains(after[j]));
            let k = before.index_of(after[j]);
            assert(pool.contains(before[k]));
            if cards.take(n).contains(after[j]) {
                let m = cards.take(n).index_of(after[j]);
                if m < n - 1 {
                    assert(cards.take(n - 1)[m] == after[j]);
                    assert(cards.take(n - 1).contains(before[k]));
                }
            }
        }
    } else {
        assert(cards.take(0) =~= Seq::<Card>::empty());
        assert forall|j: int| 0 <= j < pool.len() implies pool.contains(#[trigger] pool[j]) by {}
    }
}

/// The unseen cards stay apart from the known ones whatever a tracker takes in.
pub proof fn unseen_cards_are_unknown(
    s: Seen,
    hand: Seq<Card>,
    level: Option<Rank>,
    seat: Seat,
    cards: Seq<Card>,
    count: usize,
)
    ensures
        apart(Seen::fresh(seat)),
        apart(s.dealt(hand, level)),
        apart(s) ==> apart(s.after_play(seat, cards)),
        apart(s) ==> apart(s.with_count(seat, count)),
{
    let known = s.known.union(hand.to_set());
    lemma_deck_distinct();
    lemma_filter_apart(one_deck(), known, |c: Card| !known.contains(c));
    if apart(s) {
        let after = s.after_play(seat, cards);
        lemma_without_apart(s.pool, cards, cards.len() as int);
        assert(cards.take(cards.len() as int) =~= cards);
        assert forall|i: int| 0 <= i < after.pool.len() implies !after.known.contains(
            #[trigger] after.pool[i],
        ) by {
            let card = after.pool[i];
            assert(s.pool.contains(card));
            let k = s.pool.index_of(card);
            assert(!s.known.contains(s.pool[k]));
        }
    }
}

proof fn lemma_deck_distinct()
    ensures
        one_deck().no_duplicates(),
{
    let deck = one_deck();
    assert forall|i: int, j: int| 0 <= i < j < 54 implies deck[i] != deck[j] by {
        if j < 52 {
            if i / 13 == j / 13 {
                assert(i % 13 != j % 13);
            }
        }
    }
}

proof fn lemma_filter_apart(deck: Seq<Card>, known: Set<Card>, test: spec_fn(Card) -> bool)
    requires
        deck.no_duplicates(),
        forall|c: Card| #[trigger] test(c) == !known.contains(c),
    ensures
        deck.filter(test).no_duplicates(),
        forall|i: int|
            0 <= i < deck.filter(test).len() ==> !known.contains(#[trigger] deck.filter(test)[i])
                && deck.contains(deck.filter(test)[i]),
    decreases deck.len(),
{
    reveal(Seq::filter);
    if deck.len() > 0 {
        let front = deck.drop_last();
        lemma_filter_apart(front, known, test);
        let all = deck.filter(test);
        let some = front.filter(test);
        assert forall|i: int| 0 <= i < all.len() implies !known.contains(#[trigger] all[i])
            && deck.contains(all[i]) by {
            if i < some.len() {
                assert(some[i] == all[i]);
                let k = front.index_of(some[i]);
                assert(deck[k] == some[i]);
            } else {
                assert(deck[deck.len() - 1] == all[i]);
            }
        }
        assert forall|i: int, j: int| 0 <= i < j < all.len() implies all[i] != all[j] by {
            if j == some.len() {
                let k = front.index_of(some[i]);
                assert(deck[k] == all[i]);
                assert(deck[deck.len() - 1] == all[j]);
            } else {
                assert(some[i] == all[i] && some[j] == all[j]);
            }
        }
    }
}

/// Every card has a place in one deck, and only one.
pub proof fn one_deck_is_complete(card: Card)
    requires
        card_ok(card),
    ensures
        one_deck().contains(card),
        one_deck().len() == 54,
        forall|i: int, j: int|
            0 <= i < j < 54 ==> #[trigger] one_deck()[i] != #[trigger] one_deck()[j],
{
    let i: int = if card.rank == Rank::BlackJoker {
        52
    } else if card.rank == Rank::RedJoker {
        53
    } else {
        (match card.suit {
            Suit::Spades => 0int,
            Suit::Hearts => 13,
            Suit::Diamonds => 26,
            _ => 39,
        }) + (if card.rank == Rank::Two {
            12
        } else {
            natural(card.rank) - 3
        })
    };
    assert(0 <= i < 54);
    assert(suit_at(0) == Suit::Spades && suit_at(1) == Suit::Hearts && suit_at(2) == Suit::Diamonds
        && suit_at(3) == Suit::Clubs);
    if card.rank != Rank::BlackJoker && card.rank != Rank::RedJoker {
        if card.rank != Rank::Two {
            lemma_rank_at(card.rank);
        }
        assert(i % 13 == if card.rank == Rank::Two {
            12
        } else {
            natural(card.rank) - 3
        });
    }
    assert(one_deck_card(i) == card);
    assert(one_deck()[i] == card);
    lemma_deck_distinct();
}

/// A play takes as many cards from its seat as it has, and none from any other; the level, and
/// whose tracker it is, stay.
pub proof fn plays_are_taken_from_their_seat(s: Seen, seat: Seat, other: Seat, cards: Seq<Card>)
    requires
        s.left.len() == 4,
    ensures
        ({
            let after = s.after_play(seat, cards);
            &&& cards.len() <= s.left_at(seat) ==> after.left_at(seat) == s.left_at(seat)
                - cards.len()
            &&& cards.len() > s.left_at(seat) ==> after.left_at(seat) == 0
            &&& other != seat ==> after.left_at(other) == s.left_at(other)
            &&& after.level == s.level && after.me == s.me
            &&& after.played == s.played.push((seat, cards))
        }),
{
}

proof fn lemma_place_is_first(pool: Seq<Card>, card: Card, i: int)
    requires
        0 <= i <= pool.len(),
    ensures
        match place_of(pool, card, i) {
            Some(k) => i <= k < pool.len() && pool[k] == card,
            None => forall|j: int| i <= j < pool.len() ==> #[trigger] pool[j] != card,
        },
    decreases pool.len() - i,
{
    if i < pool.len() {
        lemma_place_is_first(pool, card, i + 1);
    }
}

proof fn lemma_others_stay(pool: Seq<Card>, cards: Seq<Card>, n: int, card: Card)
    requires
        0 <= n <= cards.len(),
        !cards.contains(card),
        pool.contains(card),
    ensures
        without_first(pool, cards, n).contains(card),
    decreases n,
{
    if n > 0 {
        lemma_others_stay(pool, cards, n - 1, card);
        let before = without_first(pool, cards, n - 1);
        let gone = cards[n - 1];
        assert(gone != card);
        lemma_place_is_first(before, gone, 0);
        if let Some(k) = place_of(before, gone, 0) {
            let j = choose|j: int| 0 <= j < before.len() && before[j] == card;
            assert(j != k);
            let after = before.remove(k);
            if j < k {
                assert(after[j] == card);
            } else {
                assert(after[j - 1] == card);
            }
        }
    }
}

/// A card that is not played stays unseen, and after the own hand is seen every other card of one
/// deck is unseen that was not known before.
pub proof fn other_cards_stay_unseen(
    s: Seen,
    seat: Seat,
    cards: Seq<Card>,
    hand: Seq<Card>,
    level: Option<Rank>,
    card: Card,
)
    requires
        card_ok(card),
    ensures
        s.pool.contains(card) && !cards.contains(card) ==> s.after_play(seat, cards).pool.contains(
            card,
        ),
        !s.known.contains(card) && !hand.contains(card) ==> s.dealt(hand, level).pool.contains(
            card,
        ),
{
    if s.pool.contains(card) && !cards.contains(card) {
        lemma_others_stay(s.pool, cards, cards.len() as int, card);
    }
    if !s.known.contains(card) && !hand.contains(card) {
        one_deck_is_complete(card);
        let known = s.known.union(hand.to_set());
        let test = |c: Card| !known.contains(c);
        let i = choose|i: int| 0 <= i < one_deck().len() && one_deck()[i] == card;
        broadcast use vstd::seq_lib::group_filter_ensures;

        assert(test(one_deck()[i]));
    }
}

proof fn lemma_bomb_points_bounds(s: Seen, v: int)
    requires
        2 <= v,
    ensures
        0 <= s.bomb_points(v),
        (forall|u: int| 2 <= u <= 14 ==> count_rank(s.pool, #[trigger] rank_at(u)) < 2)
            ==> s.bomb_points(v) == 0,
        (exists|u: int| v <= u <= 14 && count_rank(s.pool, #[trigger] rank_at(u)) >= 4)
            ==> s.bomb_points(v) >= 4,
    decreases 15 - v,
{
    if v <= 14 {
        lemma_bomb_points_bounds(s, v + 1);
        assert(rank_at(v) == rank_at(v));
    }
}

/// A bomb needs four cards at a seat; it is out of the question where no two cards of a rank are
/// unseen, and of some chance where four are; the more cards a seat has, up to twenty, the likelier.
pub proof fn bombs_go_by_unseen_cards(s: Seen, t: Seen, seat: Seat)
    requires
        s.left.len() == 4,
        t == (Seen { left: t.left, ..s }),
        t.left.len() == 4,
        s.left_at(seat) <= t.left_at(seat),
    ensures
        s.bomb_odds(seat).den == 400,
        0 <= s.bomb_odds(seat).num <= t.bomb_odds(seat).num <= 400,
        s.left_at(seat) < 4 || seat == s.me ==> s.bomb_odds(seat).num == 0,
        (forall|u: int| 2 <= u <= 14 ==> count_rank(s.pool, #[trigger] rank_at(u)) < 2)
            ==> s.bomb_odds(seat).num == 0,
        seat != s.me && s.left_at(seat) >= 4 && (exists|u: int|
            2 <= u <= 14 && count_rank(s.pool, #[trigger] rank_at(u)) >= 4) ==> s.bomb_odds(seat).num
            >= 16,
{
    lemma_bomb_points_bounds(s, 2);
    lemma_same_points(s, t, 2);
    let a = lesser(s.bomb_points(2), 20);
    let m = lesser(s.left_at(seat) as int, 20);
    let n = lesser(t.left_at(seat) as int, 20);
    assert(0 <= a * m <= a * n <= 400) by (nonlinear_arith)
        requires
            0 <= a <= 20,
            0 <= m <= n <= 20,
    ;
    assert(a >= 4 && m >= 4 ==> a * m >= 16) by (nonlinear_arith);
    assert(a == 0 ==> a * m == 0) by (nonlinear_arith);
}

proof fn lemma_same_points(s: Seen, t: Seen, v: int)
    requires
        s.pool == t.pool,
    ensures
        s.bomb_points(v) == t.bomb_points(v),
    decreases 15 - v,
{
    if v <= 14 {
        lemma_same_points(s, t, v + 1);
    }
}

} // verus!
