//! What a player knows when it is their turn: the hand, the others' numbers of cards, and the
//! cards that have not been seen yet.

use vstd::prelude::*;
use vstd::string::*;
use crate::cards::{
    Rank, RuleContext, Suit, Symbol, is_wild, level_rank, natural, natural_of, read_symbols,
    symbols_named,
};
use crate::combination_parser::{CombinationKind, OrdinaryKind};
use crate::domain::{Seat, TeamId, partner_of, seat_at, team_of};
use crate::game_types::{HandHistoryEntry, HandState, HistoryActionKind, PlayState, cards_left};
use crate::hand_combos::{HandCombos, analyze_hand_combos};
use crate::hand_view::{hand_ok, lemma_named_hand_ok, plain};
use crate::leftovers::{is_joker_symbol, lesser};
use crate::movegen::held_by;
use crate::params::AdvancedBotParams;
use crate::tally::{lemma_tally_step, tally};

verus! {

/// Place of a rank among the unseen cards: three is 3, ace 14, two 15, then the jokers.
pub open spec fn slot(rank: Rank) -> int {
    match rank {
        Rank::Two => 15,
        Rank::BlackJoker => 16,
        Rank::RedJoker => 17,
        _ => natural(rank),
    }
}

/// How many cards of a slot the double deck has.
pub open spec fn copies(v: int) -> int {
    if 3 <= v <= 15 {
        8
    } else if 16 <= v <= 17 {
        2
    } else {
        0
    }
}

pub open spec fn in_slot(v: int) -> spec_fn(Symbol) -> bool {
    |s: Symbol| s is Known && slot(s->Known_0.rank) == v
}

/// How many cards of a slot were played in the first `n` actions of a hand.
pub open spec fn played_in_slot(history: Seq<HandHistoryEntry>, n: int, v: int) -> nat
    decreases n,
{
    if n <= 0 {
        0
    } else {
        let entry = history[n - 1];
        played_in_slot(history, n - 1, v) + if entry.action_type == HistoryActionKind::Play {
            tally(symbols_named(entry.cards@), in_slot(v))
        } else {
            0
        }
    }
}

/// How many cards of a slot were seen: in the own hand and in the plays so far.
pub open spec fn seen_in_slot(hand: Seq<Symbol>, history: Seq<HandHistoryEntry>, v: int) -> nat {
    tally(hand, in_slot(v)) + played_in_slot(history, history.len() as int, v)
}

/// How many cards of each slot are still unseen.
pub open spec fn unseen(hand: Seq<Symbol>, history: Seq<HandHistoryEntry>) -> Seq<int> {
    Seq::new(
        18,
        |v: int| copies(v) - lesser(copies(v), seen_in_slot(hand, history, v) as int),
    )
}

/// Sum over the slots from `v` on.
pub open spec fn pool_from(pool: Seq<int>, v: int) -> int
    decreases 18 - v,
{
    if v >= 18 {
        0
    } else {
        pool[v] + pool_from(pool, v + 1)
    }
}

/// The unseen cards.
#[derive(Debug)]
pub struct PoolStats {
    /// Number of unseen cards in each slot.
    pub rank_counts: Vec<u16>,
    /// Number of unseen cards in each slot and those above.
    pub suffix_ge: Vec<u16>,
    /// Number of unseen cards.
    pub total: u16,
}

impl PoolStats {
    /// The numbers are those of a pool.
    pub open spec fn of(self, pool: Seq<int>) -> bool {
        &&& self.rank_counts@.len() == 18
        &&& self.suffix_ge@.len() == 19
        &&& pool.len() == 18
        &&& forall|v: int|
            0 <= v < 18 ==> #[trigger] self.rank_counts@[v] == pool[v] && 0 <= pool[v] <= copies(v)
        &&& forall|v: int| 0 <= v < 19 ==> #[trigger] self.suffix_ge@[v] == pool_from(pool, v)
        &&& self.total == pool_from(pool, 0)
        &&& self.total <= 108
    }
}

/// Place of a rank among the unseen cards.
pub fn rank_slot(rank: Rank) -> (v: u8)
    ensures
        v == slot(rank),
        3 <= v <= 17,
{
    match rank {
        Rank::Two => 15,
        Rank::BlackJoker => 16,
        Rank::RedJoker => 17,
        rank => natural_of(rank),
    }
}

fn deck_copies(v: usize) -> (n: u16)
    ensures
        n == copies(v as int),
        n <= 8,
{
    if 3 <= v && v <= 15 {
        8
    } else if 16 <= v && v <= 17 {
        2
    } else {
        0
    }
}

/// The counters hold what was seen, cut off at eight.
spec fn caps(seen: Seq<u16>, count: spec_fn(int) -> nat) -> bool {
    &&& seen.len() == 18
    &&& forall|v: int| 3 <= v < 18 ==> #[trigger] seen[v] == lesser(8, count(v) as int)
}

fn bump(seen: &mut Vec<u16>, symbol: Symbol, Ghost(count): Ghost<spec_fn(int) -> nat>)
    requires
        caps(old(seen)@, count),
    ensures
        caps(
            final(seen)@,
            |v: int|
                count(v) + if in_slot(v)(symbol) {
                    1nat
                } else {
                    0nat
                },
        ),
{
    if let Symbol::Known(card) = symbol {
        let v: usize = rank_slot(card.rank) as usize;
        if seen[v] < 8 {
            let n: u16 = seen[v];
            seen[v] = n + 1;
        }
    }
}

fn bump_all(seen: &mut Vec<u16>, symbols: &[Symbol], Ghost(count): Ghost<spec_fn(int) -> nat>)
    requires
        caps(old(seen)@, count),
    ensures
        caps(final(seen)@, |v: int| count(v) + tally(symbols@, in_slot(v))),
{
    assert(symbols@.take(0) =~= Seq::<Symbol>::empty());
    for i in 0..symbols.len()
        invariant
            caps(seen@, |v: int| count(v) + tally(symbols@.take(i as int), in_slot(v))),
    {
        bump(
            seen,
            symbols[i],
            Ghost(|v: int| count(v) + tally(symbols@.take(i as int), in_slot(v))),
        );
        proof {
            assert forall|v: int| 3 <= v < 18 implies #[trigger] seen@[v] == lesser(
                8,
                (count(v) + tally(symbols@.take(i + 1), in_slot(v))) as int,
            ) by {
                lemma_tally_step(symbols@, in_slot(v), i as int);
            }
        }
    }
    assert(symbols@.take(symbols@.len() as int) =~= symbols@);
}

impl PoolStats {
    /// The cards that a player has not seen: the double deck without the own hand and the
    /// plays so far.
    pub fn build(hand: &[Symbol], history: &Vec<HandHistoryEntry>) -> (stats: PoolStats)
        ensures
            stats.of(unseen(hand@, history@)),
    {
        let mut seen: Vec<u16> = vec![0; 18];
        bump_all(&mut seen, hand, Ghost(|v: int| 0nat));
        assert(caps(
            seen@,
            |v: int| tally(hand@, in_slot(v)) + played_in_slot(history@, 0, v),
        ));
        for i in 0..history.len()
            invariant
                caps(
                    seen@,
                    |v: int| tally(hand@, in_slot(v)) + played_in_slot(history@, i as int, v),
                ),
        {
            let entry = &history[i];
            if entry.action_type == HistoryActionKind::Play {
                let symbols = read_symbols(entry.cards.as_slice());
                bump_all(
                    &mut seen,
                    symbols.as_slice(),
                    Ghost(
                        |v: int| tally(hand@, in_slot(v)) + played_in_slot(history@, i as int, v),
                    ),
                );
            }
            assert(caps(
                seen@,
                |v: int| tally(hand@, in_slot(v)) + played_in_slot(history@, i + 1, v),
            ));
        }
        let ghost pool = unseen(hand@, history@);
        let mut rank_counts: Vec<u16> = Vec::new();
        for v in 0..18
            invariant
                caps(
                    seen@,
                    |v: int|
                        tally(hand@, in_slot(v)) + played_in_slot(
                            history@,
                            history@.len() as int,
                            v,
                        ),
                ),
                pool == unseen(hand@, history@),
                rank_counts@.len() == v,
                forall|w: int|
                    0 <= w < v ==> #[trigger] rank_counts@[w] == pool[w] && 0 <= pool[w] <= copies(
                        w,
                    ),
        {
            let all: u16 = deck_copies(v);
            if all == 0 {
                rank_counts.push(0);
            } else if seen[v] < all {
                rank_counts.push(all - seen[v]);
            } else {
                rank_counts.push(0);
            }
        }
        let mut suffix_ge: Vec<u16> = vec![0; 19];
        let mut running: u16 = 0;
        let mut v: usize = 18;
        while v > 0
            invariant
                v <= 18,
                pool.len() == 18,
                rank_counts@.len() == 18,
                suffix_ge@.len() == 19,
                forall|w: int|
                    0 <= w < 18 ==> #[trigger] rank_counts@[w] == pool[w] && 0 <= pool[w] <= copies(
                        w,
                    ),
                forall|w: int| v <= w < 19 ==> #[trigger] suffix_ge@[w] == pool_from(pool, w),
                running == pool_from(pool, v as int),
                v >= 16 ==> running <= 2 * (18 - v),
                3 <= v < 16 ==> running <= 4 + 8 * (16 - v),
                v < 3 ==> running <= 108,
            decreases v,
        {
            v = v - 1;
            running = running + rank_counts[v];
            suffix_ge[v] = running;
        }
        PoolStats { rank_counts, suffix_ge, total: running }
    }
}

/// What a player knows.
pub ghost struct Situation {
    pub ctx: RuleContext,
    pub params: AdvancedBotParams,
    pub hand: Seq<Symbol>,
    pub actor: Seat,
    /// Number of cards at each seat, in table order.
    pub left: Seq<nat>,
    /// An opponent's single below the king lies on top.
    pub unlock_single: bool,
    /// An opponent's pair below the king lies on top.
    pub unlock_pair: bool,
    /// The partner has passed since the last play.
    pub partner_passed: bool,
    /// Number of unseen cards in each slot.
    pub pool: Seq<int>,
}

pub open spec fn seat_number(seat: Seat) -> int {
    match seat {
        Seat::E => 0,
        Seat::S => 1,
        Seat::W => 2,
        Seat::N => 3,
    }
}

/// The opponents of a seat, in table order.
pub open spec fn first_opponent(seat: Seat) -> Seat {
    if team_of(seat) == TeamId::Ew {
        Seat::S
    } else {
        Seat::E
    }
}

pub open spec fn second_opponent(seat: Seat) -> Seat {
    if team_of(seat) == TeamId::Ew {
        Seat::N
    } else {
        Seat::W
    }
}

/// A hand with a plain card of the level, or a joker.
pub open spec fn has_level_or_joker(hand: Seq<Symbol>, ctx: RuleContext) -> bool {
    exists|i: int| 0 <= i < hand.len() && level_or_joker(#[trigger] hand[i], ctx)
}

pub open spec fn level_or_joker(symbol: Symbol, ctx: RuleContext) -> bool {
    is_joker_symbol(symbol) || (plain(symbol, ctx) && symbol->Known_0.rank == level_rank(
        ctx.hand_level,
    ))
}

impl Situation {
    /// Number of cards at a seat.
    pub open spec fn left_at(self, seat: Seat) -> nat {
        self.left[seat_number(seat)]
    }

    pub open spec fn partner_left(self) -> nat {
        self.left_at(partner_of(self.actor))
    }

    /// The smaller of the opponents' numbers of cards.
    pub open spec fn min_opponent(self) -> int {
        lesser(
            self.left_at(first_opponent(self.actor)) as int,
            self.left_at(second_opponent(self.actor)) as int,
        )
    }

    /// An opponent who still holds cards holds at most `n`.
    pub open spec fn enemy_within(self, n: int) -> bool {
        1 <= self.left_at(first_opponent(self.actor)) <= n || 1 <= self.left_at(
            second_opponent(self.actor),
        ) <= n
    }

    pub open spec fn endgame(self) -> bool {
        self.hand.len() <= self.params.endgame_hand_count_threshold
    }
}

/// Whether a seat has passed since the last play among the first `n` actions.
pub open spec fn passed_since(history: Seq<HandHistoryEntry>, n: int, seat: Seat) -> bool
    decreases n,
{
    if n <= 0 || history[n - 1].action_type == HistoryActionKind::Play {
        false
    } else {
        history[n - 1].seat == seat || passed_since(history, n - 1, seat)
    }
}

/// Whether an opponent of `actor` leads the trick with a combination of some kind, below the
/// king.
pub open spec fn opponent_low(hand: HandState, actor: Seat, kind: OrdinaryKind) -> bool {
    match hand.trick.top_play {
        Some(top) => top.seat != actor && top.seat != partner_of(actor) && 0
            < top.combination.primary < 12 && top.combination.kind == CombinationKind::Ordinary(
            kind,
        ),
        None => false,
    }
}

/// What a player knows of a hand in progress.
pub open spec fn situation_of(
    hand: HandState,
    actor: Seat,
    params: AdvancedBotParams,
) -> Situation {
    let own = match held_by(hand, actor) {
        Some(list) => symbols_named(list),
        None => Seq::empty(),
    };
    Situation {
        ctx: RuleContext { hand_level: hand.hand_level },
        params,
        hand: own,
        actor,
        left: Seq::new(4, |i: int| cards_left(hand, seat_at(i))),
        unlock_single: opponent_low(hand, actor, OrdinaryKind::Single),
        unlock_pair: opponent_low(hand, actor, OrdinaryKind::Pair),
        partner_passed: passed_since(hand.history@, hand.history@.len() as int, partner_of(actor)),
        pool: unseen(own, hand.history@),
    }
}

/// What a player knows, and what follows from it.
#[derive(Debug)]
pub struct PlayContext {
    pub ctx: RuleContext,
    pub params: AdvancedBotParams,
    pub my_hand: Vec<Symbol>,
    pub actor_seat: Seat,
    /// Number of cards at each seat, in table order.
    pub seat_remaining: Vec<usize>,
    pub unlock_single_follow_split: bool,
    pub unlock_pair_follow_split: bool,
    pub teammate_passed_top: bool,
    pub pool: PoolStats,
    pub combos: HandCombos,
    pub has_level_card_or_joker: bool,
    /// Fewer or as many cards as the endgame begins with.
    pub is_endgame: bool,
}

impl View for PlayContext {
    type V = Situation;

    open spec fn view(&self) -> Situation {
        Situation {
            ctx: self.ctx,
            params: self.params,
            hand: self.my_hand@,
            actor: self.actor_seat,
            left: Seq::new(self.seat_remaining@.len(), |i: int| self.seat_remaining@[i] as nat),
            unlock_single: self.unlock_single_follow_split,
            unlock_pair: self.unlock_pair_follow_split,
            partner_passed: self.teammate_passed_top,
            pool: Seq::new(
                self.pool.rank_counts@.len(),
                |v: int| self.pool.rank_counts@[v] as int,
            ),
        }
    }
}

/// A chance: how many cases of how many.
#[derive(Clone, Copy, Debug, PartialEq, Eq, Structural)]
pub struct Chance {
    pub num: u128,
    pub den: u128,
}

/// How many cases of how many, for numbers without bound.
pub ghost struct Odds {
    pub num: int,
    pub den: int,
}

impl View for Chance {
    type V = Odds;

    open spec fn view(&self) -> Odds {
        Odds { num: self.num as int, den: self.den as int }
    }
}

pub open spec fn never() -> Odds {
    Odds { num: 0, den: 1 }
}

impl Situation {
    pub open spec fn unseen_total(self) -> int {
        pool_from(self.pool, 0)
    }

    /// Chance that a seat holds a card of a slot: its share of the unseen cards, times the
    /// seat's share of them.
    pub open spec fn rank_odds(self, seat: Seat, v: int) -> Odds {
        let t = self.unseen_total();
        if seat == self.actor || self.left_at(seat) == 0 || t == 0 {
            never()
        } else {
            Odds {
                num: (if 0 <= v < 18 {
                    self.pool[v]
                } else {
                    0
                }) * lesser(self.left_at(seat) as int, t),
                den: t * t,
            }
        }
    }

    /// Twentieths of a chance that the unseen cards give to a bomb: four for each rank with
    /// four of them, two for three, one for two.
    pub open spec fn bomb_points(self, v: int) -> int
        decreases 16 - v,
    {
        if v > 15 {
            0
        } else {
            self.bomb_points(v + 1) + if self.pool[v] >= 4 {
                4int
            } else if self.pool[v] >= 3 {
                2int
            } else if self.pool[v] >= 2 {
                1int
            } else {
                0int
            }
        }
    }

    /// Chance that a seat holds a bomb, which needs four cards and grows up to twenty.
    pub open spec fn bomb_odds(self, seat: Seat) -> Odds {
        if seat == self.actor || self.left_at(seat) < 4 {
            Odds { num: 0, den: 400 }
        } else {
            Odds {
                num: lesser(self.bomb_points(3), 20) * lesser(self.left_at(seat) as int, 20),
                den: 400,
            }
        }
    }

    /// Chance that a seat can follow a slot: the share of the unseen cards at or above it.
    pub open spec fn follow_odds(self, seat: Seat, v: int) -> Odds {
        let t = self.unseen_total();
        if seat == self.actor || self.left_at(seat) == 0 || t == 0 {
            never()
        } else {
            Odds {
                num: if v <= 18 {
                    pool_from(self.pool, v)
                } else {
                    0
                },
                den: t,
            }
        }
    }

    /// The greater of the opponents' chances of a bomb.
    pub open spec fn enemy_bomb_odds(self) -> Odds {
        let a = self.bomb_odds(first_opponent(self.actor));
        let b = self.bomb_odds(second_opponent(self.actor));
        if a.num >= b.num {
            a
        } else {
            b
        }
    }

    pub open spec fn share(self, seat: Seat) -> int {
        if seat == self.actor {
            0
        } else {
            lesser(self.left_at(seat) as int, self.unseen_total())
        }
    }

    /// Chance that anyone else holds a card of a slot, at most one.
    pub open spec fn others_rank_odds(self, v: int) -> Odds {
        let t = self.unseen_total();
        if t == 0 {
            never()
        } else {
            let n = (if 0 <= v < 18 {
                self.pool[v]
            } else {
                0
            }) * (self.share(Seat::E) + self.share(Seat::S) + self.share(Seat::W) + self.share(
                Seat::N,
            ));
            Odds { num: lesser(n, t * t), den: t * t }
        }
    }

    /// Chance of winning: the own team's share of the cards that are left, less three tenths
    /// of the chance that an opponent holds a bomb; one half when no cards are left.
    pub open spec fn win_odds(self) -> Odds {
        let own = (self.left_at(self.actor) + self.partner_left()) as int;
        let others = (self.left_at(first_opponent(self.actor)) + self.left_at(
            second_opponent(self.actor),
        )) as int;
        if own + others == 0 {
            Odds { num: 1, den: 2 }
        } else {
            Odds {
                num: own * (4000 - 3 * self.enemy_bomb_odds().num),
                den: (own + others) * 4000,
            }
        }
    }
}

fn usize_least(a: usize, b: usize) -> (m: usize)
    ensures
        m == lesser(a as int, b as int),
{
    if a <= b {
        a
    } else {
        b
    }
}

/// Number of a seat in table order.
pub fn seat_index(seat: Seat) -> (i: usize)
    ensures
        i == seat_number(seat),
        i < 4,
{
    match seat {
        Seat::E => 0,
        Seat::S => 1,
        Seat::W => 2,
        Seat::N => 3,
    }
}

impl PlayContext {
    /// What was worked out in advance is right.
    pub open spec fn wf(&self) -> bool {
        &&& hand_ok(self.my_hand@)
        &&& self.params.ok()
        &&& self.seat_remaining@.len() == 4
        &&& self.pool.of(self@.pool)
        &&& self.combos.of(self.my_hand@, self.ctx)
        &&& self.combos.singles_count <= 13
        &&& self.has_level_card_or_joker == has_level_or_joker(self.my_hand@, self.ctx)
        &&& self.is_endgame == self@.endgame()
    }

    /// Number of cards at a seat.
    pub fn remaining_of(&self, seat: Seat) -> (n: usize)
        requires
            self.wf(),
        ensures
            n == self@.left_at(seat),
    {
        self.seat_remaining[seat_index(seat)]
    }

    /// Number of the partner's cards.
    pub fn teammate_remaining(&self) -> (n: usize)
        requires
            self.wf(),
        ensures
            n == self@.partner_left(),
    {
        self.remaining_of(self.actor_seat.teammate())
    }

    fn opponents(&self) -> (seats: (Seat, Seat))
        ensures
            seats == (first_opponent(self.actor_seat), second_opponent(self.actor_seat)),
    {
        match self.actor_seat {
            Seat::E | Seat::W => (Seat::S, Seat::N),
            Seat::S | Seat::N => (Seat::E, Seat::W),
        }
    }

    /// The smaller of the opponents' numbers of cards.
    pub fn min_opp_remaining(&self) -> (n: usize)
        requires
            self.wf(),
        ensures
            n == self@.min_opponent(),
    {
        let (a, b) = self.opponents();
        usize_least(self.remaining_of(a), self.remaining_of(b))
    }

    /// Whether an opponent who still holds cards holds at most `n`.
    pub fn enemy_within(&self, n: usize) -> (b: bool)
        requires
            self.wf(),
        ensures
            b == self@.enemy_within(n as int),
    {
        let (a, b) = self.opponents();
        let x: usize = self.remaining_of(a);
        let y: usize = self.remaining_of(b);
        (1 <= x && x <= n) || (1 <= y && y <= n)
    }

    /// Whether an opponent is about to run out of cards.
    pub fn enemy_sprinting(&self) -> (b: bool)
        requires
            self.wf(),
        ensures
            b == self@.enemy_within(6),
    {
        self.enemy_within(6)
    }

    fn unseen_in(&self, v: usize) -> (n: u128)
        requires
            self.wf(),
        ensures
            n == if v < 18 {
                self@.pool[v as int]
            } else {
                0
            },
            n <= 8,
    {
        if v < 18 {
            assert(self.pool.rank_counts@[v as int] == self@.pool[v as int]);
            self.pool.rank_counts[v] as u128
        } else {
            0
        }
    }

    /// Chance that a seat holds a card of a slot.
    pub fn prob_rank_in_hand(&self, seat: Seat, rank_v: usize) -> (chance: Chance)
        requires
            self.wf(),
        ensures
            chance@ == self@.rank_odds(seat, rank_v as int),
    {
        let total: usize = self.pool.total as usize;
        let own: usize = self.remaining_of(seat);
        if seat == self.actor_seat || own == 0 || total == 0 {
            return Chance { num: 0, den: 1 };
        }
        let n: u128 = self.unseen_in(rank_v);
        let share: u128 = usize_least(own, total) as u128;
        proof {
            assert(n * share <= 8 * 108) by (nonlinear_arith)
                requires
                    0 <= n <= 8,
                    0 <= share <= 108,
            ;
            assert(total * total <= 108 * 108) by (nonlinear_arith)
                requires
                    0 <= total <= 108,
            ;
        }
        Chance { num: n * share, den: (total * total) as u128 }
    }

    /// Chance that a seat holds a bomb.
    pub fn prob_has_bomb(&self, seat: Seat) -> (chance: Chance)
        requires
            self.wf(),
        ensures
            chance@ == self@.bomb_odds(seat),
            chance.num <= 400,
    {
        let own: usize = self.remaining_of(seat);
        if seat == self.actor_seat || own < 4 {
            return Chance { num: 0, den: 400 };
        }
        let mut points: usize = 0;
        let mut v: usize = 15;
        while v >= 3
            invariant
                self.wf(),
                2 <= v <= 15,
                points <= 4 * (15 - v),
                points == self@.bomb_points(v + 1),
            decreases v,
        {
            let n: u16 = self.pool.rank_counts[v];
            assert(n == self@.pool[v as int]);
            if n >= 4 {
                points = points + 4;
            } else if n >= 3 {
                points = points + 2;
            } else if n >= 2 {
                points = points + 1;
            }
            v = v - 1;
        }
        let a: u128 = usize_least(points, 20) as u128;
        let b: u128 = usize_least(own, 20) as u128;
        proof {
            assert(a * b <= 400) by (nonlinear_arith)
                requires
                    0 <= a <= 20,
                    0 <= b <= 20,
            ;
        }
        Chance { num: a * b, den: 400 }
    }

    /// Chance that a seat can follow a slot.
    pub fn prob_can_follow(&self, seat: Seat, min_rank_v: usize) -> (chance: Chance)
        requires
            self.wf(),
        ensures
            chance@ == self@.follow_odds(seat, min_rank_v as int),
    {
        let total: u128 = self.pool.total as u128;
        if seat == self.actor_seat || self.remaining_of(seat) == 0 || total == 0 {
            return Chance { num: 0, den: 1 };
        }
        let n: u128 = if min_rank_v <= 18 {
            self.pool.suffix_ge[min_rank_v] as u128
        } else {
            0
        };
        Chance { num: n, den: total }
    }

    /// The greater of the opponents' chances of a bomb.
    pub fn opponent_bomb_prob(&self) -> (chance: Chance)
        requires
            self.wf(),
        ensures
            chance@ == self@.enemy_bomb_odds(),
            chance.num <= 400,
            chance.den == 400,
    {
        let (a, b) = self.opponents();
        let x = self.prob_has_bomb(a);
        let y = self.prob_has_bomb(b);
        if x.num >= y.num {
            x
        } else {
            y
        }
    }

    fn share_of(&self, seat: Seat) -> (n: u128)
        requires
            self.wf(),
        ensures
            n == self@.share(seat),
            n <= 108,
    {
        if seat == self.actor_seat {
            0
        } else {
            usize_least(self.remaining_of(seat), self.pool.total as usize) as u128
        }
    }

    /// Chance that anyone else holds a card of a slot.
    pub fn opponent_has_rank(&self, rank_v: usize) -> (chance: Chance)
        requires
            self.wf(),
        ensures
            chance@ == self@.others_rank_odds(rank_v as int),
            chance.num <= chance.den <= 11664,
            chance.den > 0,
    {
        let total: u128 = self.pool.total as u128;
        if total == 0 {
            return Chance { num: 0, den: 1 };
        }
        let n: u128 = self.unseen_in(rank_v);
        let shares: u128 = self.share_of(Seat::E) + self.share_of(Seat::S) + self.share_of(Seat::W)
            + self.share_of(Seat::N);
        proof {
            assert(n * shares <= 8 * 432) by (nonlinear_arith)
                requires
                    0 <= n <= 8,
                    0 <= shares <= 432,
            ;
            assert(1 <= total * total <= 11664) by (nonlinear_arith)
                requires
                    1 <= total <= 108,
            ;
        }
        let num: u128 = n * shares;
        let den: u128 = total * total;
        if num <= den {
            Chance { num, den }
        } else {
            Chance { num: den, den }
        }
    }

    /// Chance of winning.
    pub fn game_win_prob(&self) -> (chance: Chance)
        requires
            self.wf(),
        ensures
            chance@ == self@.win_odds(),
            chance.num <= 4000 * 4 * 0x1_0000_0000_0000_0000,
            0 < chance.den <= 4000 * 4 * 0x1_0000_0000_0000_0000,
    {
        let (a, b) = self.opponents();
        let own: u128 = self.remaining_of(self.actor_seat) as u128 + self.teammate_remaining()
            as u128;
        let others: u128 = self.remaining_of(a) as u128 + self.remaining_of(b) as u128;
        if own + others == 0 {
            return Chance { num: 1, den: 2 };
        }
        let bomb: u128 = self.opponent_bomb_prob().num;
        let factor: u128 = 4000 - 3 * bomb;
        proof {
            assert(0 <= own * factor <= own * 4000) by (nonlinear_arith)
                requires
                    0 <= own,
                    0 <= factor <= 4000,
            ;
        }
        Chance { num: own * factor, den: (own + others) * 4000 }
    }
}

fn holds_level_or_joker(hand: &[Symbol], ctx: RuleContext) -> (b: bool)
    ensures
        b == has_level_or_joker(hand@, ctx),
{
    let level = ctx.hand_level.to_rank();
    for i in 0..hand.len()
        invariant
            level == level_rank(ctx.hand_level),
            forall|j: int| 0 <= j < i ==> !level_or_joker(#[trigger] hand@[j], ctx),
    {
        let symbol = hand[i];
        let found = match symbol {
            Symbol::Known(card) => card.suit == Suit::Joker || (!is_wild(card, ctx) && card.rank
                == level),
            Symbol::OddJoker => true,
            Symbol::Odd => false,
        };
        if found {
            assert(level_or_joker(hand@[i as int], ctx));
            return true;
        }
    }
    false
}

fn low_lead_of_opponent(hand: &HandState, actor: Seat, kind: OrdinaryKind) -> (b: bool)
    ensures
        b == opponent_low(*hand, actor, kind),
{
    match &hand.trick.top_play {
        Some(top) => {
            let primary: u8 = top.combination.primary;
            top.seat != actor && top.seat != actor.teammate() && primary > 0 && primary < 12
                && top.combination.kind == CombinationKind::Ordinary(kind)
        },
        None => false,
    }
}

fn passed_since_play(history: &Vec<HandHistoryEntry>, seat: Seat) -> (b: bool)
    ensures
        b == passed_since(history@, history@.len() as int, seat),
{
    let mut n: usize = history.len();
    while n > 0
        invariant
            n <= history@.len(),
            passed_since(history@, history@.len() as int, seat) == passed_since(
                history@,
                n as int,
                seat,
            ),
        decreases n,
    {
        if history[n - 1].action_type == HistoryActionKind::Play {
            return false;
        }
        if history[n - 1].seat == seat {
            return true;
        }
        n = n - 1;
    }
    false
}

/// What `actor` knows of a hand in progress.
pub fn build_play_context(hand: &HandState, actor: Seat, params: AdvancedBotParams) -> (p:
    PlayContext)
    requires
        params.ok(),
    ensures
        p@ == situation_of(*hand, actor, params),
        p.wf(),
{
    let ctx = RuleContext { hand_level: hand.hand_level };
    let my_hand: Vec<Symbol> = match hand.hands.get(actor) {
        Some(list) => {
            proof {
                lemma_named_hand_ok(list@);
            }
            read_symbols(list.as_slice())
        },
        None => Vec::new(),
    };
    let mut seat_remaining: Vec<usize> = Vec::new();
    seat_remaining.push(hand.remaining_count(Seat::E));
    seat_remaining.push(hand.remaining_count(Seat::S));
    seat_remaining.push(hand.remaining_count(Seat::W));
    seat_remaining.push(hand.remaining_count(Seat::N));
    let pool = PoolStats::build(my_hand.as_slice(), &hand.history);
    let combos = analyze_hand_combos(my_hand.as_slice(), ctx);
    let has_level_card_or_joker = holds_level_or_joker(my_hand.as_slice(), ctx);
    let is_endgame = my_hand.len() <= params.endgame_hand_count_threshold as usize;
    let p = PlayContext {
        ctx,
        params,
        my_hand,
        actor_seat: actor,
        seat_remaining,
        unlock_single_follow_split: low_lead_of_opponent(hand, actor, OrdinaryKind::Single),
        unlock_pair_follow_split: low_lead_of_opponent(hand, actor, OrdinaryKind::Pair),
        teammate_passed_top: passed_since_play(&hand.history, actor.teammate()),
        pool,
        combos,
        has_level_card_or_joker,
        is_endgame,
    };
    proof {
        let s = situation_of(*hand, actor, params);
        assert(p@.hand =~= s.hand);
        assert(p@.left =~= s.left);
        assert(p@.pool =~= s.pool);
    }
    p
}

proof fn lemma_pool_sums(pool: Seq<int>, v: int)
    requires
        pool.len() == 18,
        0 <= v <= 18,
        forall|u: int| 0 <= u < 18 ==> 0 <= #[trigger] pool[u],
    ensures
        0 <= pool_from(pool, v) <= pool_from(pool, 0),
        v < 18 ==> pool[v] <= pool_from(pool, 0),
    decreases v,
{
    lemma_pool_positive(pool, v);
    if v > 0 {
        lemma_pool_sums(pool, v - 1);
    }
    if v < 18 {
        lemma_pool_positive(pool, v + 1);
    }
}

proof fn lemma_pool_positive(pool: Seq<int>, v: int)
    requires
        pool.len() == 18,
        0 <= v,
        forall|u: int| 0 <= u < 18 ==> 0 <= #[trigger] pool[u],
    ensures
        0 <= pool_from(pool, v),
    decreases 18 - v,
{
    if v < 18 {
        lemma_pool_positive(pool, v + 1);
    }
}

/// Chances at a table lie between none and certainty, and nothing is guessed of the own hand.
pub proof fn odds_are_proper(s: Situation, seat: Seat, v: int)
    requires
        s.pool.len() == 18,
        forall|u: int| 0 <= u < 18 ==> 0 <= #[trigger] s.pool[u],
        0 <= v,
    ensures
        0 <= s.rank_odds(seat, v).num <= s.rank_odds(seat, v).den,
        0 <= s.others_rank_odds(v).num <= s.others_rank_odds(v).den,
        0 <= s.follow_odds(seat, v).num <= s.follow_odds(seat, v).den,
        s.rank_odds(s.actor, v) == never(),
        s.bomb_odds(s.actor).num == 0,
{
    let t = s.unseen_total();
    lemma_pool_positive(s.pool, 0);
    if v <= 18 {
        lemma_pool_sums(s.pool, v);
    }
    let n = if 0 <= v < 18 {
        s.pool[v]
    } else {
        0
    };
    let m = lesser(s.left_at(seat) as int, t);
    assert(0 <= n * m <= t * t) by (nonlinear_arith)
        requires
            0 <= n <= t,
            0 <= m <= t,
    ;
    let shares = s.share(Seat::E) + s.share(Seat::S) + s.share(Seat::W) + s.share(Seat::N);
    assert(0 <= n * shares) by (nonlinear_arith)
        requires
            0 <= n,
            0 <= shares,
    ;
}

/// The unseen cards of each rank and the seen ones make up the double deck, as long as no more
/// are seen than there are.
pub proof fn seen_and_unseen_make_the_deck(
    hand: Seq<Symbol>,
    history: Seq<HandHistoryEntry>,
    v: int,
)
    requires
        0 <= v < 18,
        seen_in_slot(hand, history, v) <= copies(v),
    ensures
        unseen(hand, history)[v] + seen_in_slot(hand, history, v) == copies(v),
{
}

/// The opponents of a seat are the two seats of the other team.
pub proof fn opponents_are_the_other_team(seat: Seat, other: Seat)
    ensures
        team_of(other) != team_of(seat) <==> other == first_opponent(seat) || other
            == second_opponent(seat),
        first_opponent(seat) != second_opponent(seat),
        seat_number(seat) == seat_number(other) <==> seat == other,
{
}

/// The opponent with fewest cards, and opponents with few cards, are meant of those two alone; an
/// opponent who is out holds no few cards.
pub proof fn fewest_cards_of_the_opponents(s: Situation, seat: Seat, n: int)
    requires
        team_of(seat) != team_of(s.actor),
    ensures
        s.min_opponent() <= s.left_at(seat),
        exists|other: Seat|
            team_of(other) != team_of(s.actor) && s.min_opponent() == #[trigger] s.left_at(other),
        1 <= s.left_at(seat) <= n ==> s.enemy_within(n),
        s.enemy_within(n) ==> exists|other: Seat|
            team_of(other) != team_of(s.actor) && 1 <= #[trigger] s.left_at(other) <= n,
{
    let a = first_opponent(s.actor);
    let b = second_opponent(s.actor);
    assert(s.min_opponent() == s.left_at(a) || s.min_opponent() == s.left_at(b));
    if s.enemy_within(n) {
        assert(1 <= s.left_at(a) <= n || 1 <= s.left_at(b) <= n);
    }
}

/// A rank of which no card is unseen is held by nobody else; more cards at another seat never make
/// it less likely that someone holds it; the number of own cards does not matter.
pub proof fn unseen_cards_make_holdings_likely(s: Situation, t: Situation, v: int)
    requires
        0 <= v < 18,
        s.pool.len() == 18,
        s.left.len() == 4,
        t == (Situation { left: t.left, ..s }),
        t.left.len() == 4,
        forall|seat: Seat| seat != s.actor ==> #[trigger] s.left_at(seat) <= t.left_at(seat),
        forall|u: int| 0 <= u < 18 ==> 0 <= #[trigger] s.pool[u],
    ensures
        s.pool[v] == 0 ==> s.others_rank_odds(v).num == 0,
        s.others_rank_odds(v).num <= t.others_rank_odds(v).num,
        s.others_rank_odds(v).den == t.others_rank_odds(v).den,
        (forall|seat: Seat| seat != s.actor ==> #[trigger] s.left_at(seat) == t.left_at(seat))
            ==> s.others_rank_odds(v) == t.others_rank_odds(v),
{
    let total = s.unseen_total();
    if total != 0 {
        let a = s.share(Seat::E) + s.share(Seat::S) + s.share(Seat::W) + s.share(Seat::N);
        let b = t.share(Seat::E) + t.share(Seat::S) + t.share(Seat::W) + t.share(Seat::N);
        assert(s.left_at(Seat::E) <= t.left_at(Seat::E) || s.actor == Seat::E);
        assert(s.left_at(Seat::S) <= t.left_at(Seat::S) || s.actor == Seat::S);
        assert(s.left_at(Seat::W) <= t.left_at(Seat::W) || s.actor == Seat::W);
        assert(s.left_at(Seat::N) <= t.left_at(Seat::N) || s.actor == Seat::N);
        assert(a <= b);
        assert(s.pool[v] * a <= s.pool[v] * b) by (nonlinear_arith)
            requires
                0 <= s.pool[v],
                a <= b,
        ;
        assert(0 * a == 0) by (nonlinear_arith);
        assert(0 <= total * total) by (nonlinear_arith);
        if forall|seat: Seat| seat != s.actor ==> #[trigger] s.left_at(seat) == t.left_at(seat) {
            assert(s.left_at(Seat::E) == t.left_at(Seat::E) || s.actor == Seat::E);
            assert(s.left_at(Seat::S) == t.left_at(Seat::S) || s.actor == Seat::S);
            assert(s.left_at(Seat::W) == t.left_at(Seat::W) || s.actor == Seat::W);
            assert(s.left_at(Seat::N) == t.left_at(Seat::N) || s.actor == Seat::N);
            assert(a == b);
        }
    }
}

proof fn lemma_bomb_points(s: Situation, t: Situation, v: int)
    requires
        3 <= v,
        s.pool.len() == 18,
        t.pool.len() == 18,
        forall|u: int| 3 <= u <= 15 ==> #[trigger] s.pool[u] <= t.pool[u],
    ensures
        0 <= s.bomb_points(v) <= t.bomb_points(v),
        (forall|u: int| 3 <= u <= 15 ==> #[trigger] s.pool[u] < 2) ==> s.bomb_points(v) == 0,
        (exists|u: int| v <= u <= 15 && #[trigger] s.pool[u] >= 4) ==> s.bomb_points(v) >= 4,
    decreases 16 - v,
{
    if v <= 15 {
        lemma_bomb_points(s, t, v + 1);
        assert(s.pool[v] <= t.pool[v]);
    }
}

/// A bomb needs four cards; it is the likelier the more cards a seat has, up to twenty, and the
/// more cards of a rank are unseen; it is out of the question where no two are, and of some chance
/// where four are. The own hand is no guess. What counts against a team is the likelier of the
/// opponents' bombs.
pub proof fn bombs_need_cards(s: Situation, t: Situation, seat: Seat)
    requires
        s.pool.len() == 18,
        t == (Situation { pool: t.pool, left: t.left, ..s }),
        t.pool.len() == 18,
        forall|u: int| 0 <= u < 18 ==> 0 <= #[trigger] s.pool[u] <= t.pool[u],
        s.left_at(seat) <= t.left_at(seat),
    ensures
        s.bomb_odds(seat).den == 400,
        s.bomb_odds(seat).num <= t.bomb_odds(seat).num <= 400,
        s.left_at(seat) < 4 || seat == s.actor ==> s.bomb_odds(seat).num == 0,
        (forall|u: int| 3 <= u <= 15 ==> #[trigger] s.pool[u] < 2) ==> s.bomb_odds(seat).num == 0,
        seat != s.actor && s.left_at(seat) >= 4 && (exists|u: int|
            3 <= u <= 15 && #[trigger] s.pool[u] >= 4) ==> s.bomb_odds(seat).num >= 16,
        team_of(seat) != team_of(s.actor) ==> s.enemy_bomb_odds().num >= s.bomb_odds(seat).num,
        s.enemy_bomb_odds() == s.bomb_odds(first_opponent(s.actor)) || s.enemy_bomb_odds()
            == s.bomb_odds(second_opponent(s.actor)),
{
    assert forall|u: int| 3 <= u <= 15 implies #[trigger] s.pool[u] <= t.pool[u] by {}
    lemma_bomb_points(s, t, 3);
    let a = lesser(s.bomb_points(3), 20);
    let b = lesser(t.bomb_points(3), 20);
    let m = lesser(s.left_at(seat) as int, 20);
    let n = lesser(t.left_at(seat) as int, 20);
    assert(0 <= a <= b <= 20 && 0 <= m <= n <= 20);
    assert(0 <= a * m <= b * n <= 400) by (nonlinear_arith)
        requires
            0 <= a <= b <= 20,
            0 <= m <= n <= 20,
    ;
    assert(a >= 4 && m >= 4 ==> a * m >= 16) by (nonlinear_arith);
    assert(a == 0 ==> a * m == 0) by (nonlinear_arith);
}

/// The chance of winning is the own team's share of the cards that are left, where no opponent can
/// have a bomb, and a likely bomb lowers it, to seven tenths at most; it is even where nobody has
/// cards left.
pub proof fn winning_goes_by_cards_and_bombs(s: Situation)
    ensures
        ({
            let own = (s.left_at(s.actor) + s.left_at(partner_of(s.actor))) as int;
            let others = (s.left_at(first_opponent(s.actor)) + s.left_at(
                second_opponent(s.actor),
            )) as int;
            let win = s.win_odds();
            &&& own + others == 0 ==> 2 * win.num == win.den
            &&& own + others > 0 && s.enemy_bomb_odds().num == 0 ==> win.num * (own + others) == own
                * win.den
            &&& own + others > 0 && s.enemy_bomb_odds().num == 400 ==> 10 * win.num * (own + others)
                == 7 * own * win.den
            &&& own > 0 && s.enemy_bomb_odds().num > 0 ==> win.num * (own + others) < own * win.den
        }),
{
    let own = (s.left_at(s.actor) + s.left_at(partner_of(s.actor))) as int;
    let others = (s.left_at(first_opponent(s.actor)) + s.left_at(second_opponent(s.actor))) as int;
    let x = s.enemy_bomb_odds().num;
    let all = own + others;
    assert(x == 0 ==> own * (4000 - 3 * x) * all == own * (all * 4000)) by (nonlinear_arith);
    assert(x == 400 ==> 10 * (own * (4000 - 3 * x)) * all == 7 * own * (all * 4000))
        by (nonlinear_arith);
    assert(own > 0 && x > 0 && others >= 0 ==> own * (4000 - 3 * x) * all < own * (all * 4000))
        by (nonlinear_arith)
        requires
            all == own + others,
    ;
    if own > 0 && s.enemy_bomb_odds().num > 0 {
        assert(others >= 0);
    }
}

proof fn lemma_pool_from(pool: Seq<int>, v: int)
    requires
        0 <= v <= 18,
        pool.len() == 18,
        forall|u: int| 0 <= u < 18 ==> 0 <= #[trigger] pool[u],
    ensures
        pool_from(pool, v) >= 0,
        v < 18 ==> pool_from(pool, v) - pool_from(pool, v + 1) == pool[v],
    decreases 18 - v,
{
    if v < 18 {
        lemma_pool_from(pool, v + 1);
    }
}

/// The higher the rank on the table, the less likely it can be followed: by the unseen cards of
/// the rank that is passed. The lowest can always be followed, and nothing beyond the jokers.
pub proof fn higher_plays_are_harder_to_follow(s: Situation, seat: Seat, v: int)
    requires
        s.pool.len() == 18,
        forall|u: int| 0 <= u < 18 ==> 0 <= #[trigger] s.pool[u],
        0 <= v < 18,
        seat != s.actor,
        s.left_at(seat) > 0,
        s.unseen_total() > 0,
    ensures
        s.follow_odds(seat, v).num - s.follow_odds(seat, v + 1).num == s.pool[v],
        s.follow_odds(seat, 0).num == s.follow_odds(seat, 0).den == s.unseen_total(),
        s.follow_odds(seat, 18).num == 0,
{
    lemma_pool_from(s.pool, v);
}

/// Ranks have places of their own among the unseen cards, the two above the ace and the jokers on
/// top, and the double deck has eight cards of each rank and two of each joker.
pub proof fn ranks_have_their_slots(a: Rank, b: Rank)
    ensures
        slot(a) == slot(b) <==> a == b,
        3 <= slot(a) <= 17,
        slot(Rank::Two) > slot(Rank::A),
        slot(Rank::RedJoker) > slot(Rank::BlackJoker) > slot(Rank::Two),
        natural(a) >= 3 && natural(b) >= 3 ==> (slot(a) < slot(b) <==> natural(a) < natural(b)),
        copies(slot(a)) == if natural(a) == 0 {
            2int
        } else {
            8
        },
{
}

/// What a player knows of a hand: the own cards, the numbers of everyone's cards, the level.
pub proof fn players_know_the_numbers_of_cards(
    hand: HandState,
    actor: Seat,
    params: AdvancedBotParams,
    seat: Seat,
)
    ensures
        ({
            let s = situation_of(hand, actor, params);
            &&& s.left_at(seat) == match hand.hands.at(seat) {
                Some(list) => list@.len(),
                None => 0,
            }
            &&& s.actor == actor && s.params == params && s.ctx.hand_level == hand.hand_level
            &&& hand.hands.at(actor) matches Some(list) ==> s.hand.len() == list@.len()
                && s.left_at(actor) == s.hand.len()
        }),
{
}

/// Pairs and triples may be broken up for an opponent's single or pair below the king, and for no
/// play of the own team.
pub proof fn low_plays_of_opponents_unlock_groups(
    hand: HandState,
    actor: Seat,
    params: AdvancedBotParams,
    top: PlayState,
)
    requires
        hand.trick.top_play == Some(top),
    ensures
        ({
            let s = situation_of(hand, actor, params);
            &&& team_of(top.seat) == team_of(actor) ==> !s.unlock_single && !s.unlock_pair
            &&& top.combination.primary >= 12 ==> !s.unlock_single && !s.unlock_pair
            &&& team_of(top.seat) != team_of(actor) && 1 <= top.combination.primary <= 11 ==> (
            s.unlock_single <==> top.combination.kind == CombinationKind::Ordinary(
                OrdinaryKind::Single,
            )) && (s.unlock_pair <==> top.combination.kind == CombinationKind::Ordinary(
                OrdinaryKind::Pair,
            ))
        }),
{
}

/// Nothing was played from the `i`-th action up to the `n`-th.
pub open spec fn no_play_between(history: Seq<HandHistoryEntry>, i: int, n: int) -> bool {
    forall|j: int| i <= j < n ==> (#[trigger] history[j]).action_type != HistoryActionKind::Play
}

/// A seat has passed since the last play where one of the passes after that play is its own.
pub proof fn passes_count_since_the_last_play(history: Seq<HandHistoryEntry>, n: int, seat: Seat)
    requires
        0 <= n <= history.len(),
    ensures
        passed_since(history, n, seat) <==> exists|i: int|
            0 <= i < n && history[i].seat == seat && #[trigger] no_play_between(history, i, n),
    decreases n,
{
    if n > 0 {
        passes_count_since_the_last_play(history, n - 1, seat);
        if passed_since(history, n, seat) {
            if history[n - 1].seat == seat {
                assert(no_play_between(history, n - 1, n));
            } else {
                let i = choose|i: int|
                    0 <= i < n - 1 && history[i].seat == seat && #[trigger] no_play_between(
                        history,
                        i,
                        n - 1,
                    );
                assert(no_play_between(history, i, n));
            }
        }
        if exists|i: int|
            0 <= i < n && history[i].seat == seat && #[trigger] no_play_between(history, i, n) {
            let i = choose|i: int|
                0 <= i < n && history[i].seat == seat && #[trigger] no_play_between(history, i, n);
            assert(history[n - 1].action_type != HistoryActionKind::Play);
            if i < n - 1 {
                assert(no_play_between(history, i, n - 1));
            }
        }
    }
}

/// A player holds a card of a rank by their share of the unseen cards: the more likely the more
/// cards they hold, and a player who is out not at all.
pub proof fn holdings_go_by_shares(s: Situation, a: Seat, b: Seat, v: int)
    requires
        s.pool.len() == 18,
        forall|u: int| 0 <= u < 18 ==> 0 <= #[trigger] s.pool[u],
        0 <= v < 18,
        a != s.actor,
        b != s.actor,
        s.left_at(a) <= s.left_at(b),
    ensures
        s.left_at(a) == 0 ==> s.rank_odds(a, v).num == 0,
        s.pool[v] == 0 ==> s.rank_odds(b, v).num == 0,
        s.left_at(a) > 0 ==> s.rank_odds(a, v).num <= s.rank_odds(b, v).num && s.rank_odds(a, v).den
            == s.rank_odds(b, v).den,
        0 < s.left_at(a) && 0 < s.unseen_total() && s.left_at(a) <= s.unseen_total() ==> s.rank_odds(
            a,
            v,
        ).num == s.pool[v] * s.left_at(a) && s.rank_odds(a, v).den == s.unseen_total()
            * s.unseen_total(),
{
    let t = s.unseen_total();
    let x = lesser(s.left_at(a) as int, t);
    let y = lesser(s.left_at(b) as int, t);
    let n = s.pool[v];
    assert(n * x <= n * y) by (nonlinear_arith)
        requires
            n >= 0,
            x <= y,
    ;
    assert(n == 0 ==> n * y == 0) by (nonlinear_arith);
}

} // verus!
