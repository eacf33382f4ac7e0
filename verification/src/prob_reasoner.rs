//! What the unseen cards make likely.

use vstd::prelude::*;
use crate::cards::{Card, Rank};
use crate::combination_parser::{count_rank, of_rank, rank_at, rank_from_value};
use crate::domain::{Seat, partner_of, team_of};
use crate::hand_tracker::{HandTracker, Seen, at_least};
use crate::leftovers::lesser;
use crate::play_context::{Chance, Odds, first_opponent, never, rank_slot, second_opponent, slot};
use crate::tally::lemma_tally_bound;

verus! {

/// A number as a fraction; the denominator is positive.
#[derive(Clone, Copy, Debug, PartialEq, Eq, Structural)]
pub struct Fraction {
    pub num: i128,
    pub den: i128,
}

/// A rank and how much the partner needs it led.
#[derive(Clone, Copy, Debug, PartialEq, Eq, Structural)]
pub struct Need {
    pub rank: Rank,
    pub score: Chance,
}

/// Reasons about what is likely, from what a tracker has seen.
#[derive(Debug)]
pub struct ProbabilisticReasoner {
    tracker: HandTracker,
}

impl Seen {
    /// The greater of the chances that an opponent of a seat holds a bomb.
    pub open spec fn enemy_bomb_odds(self, seat: Seat) -> Odds {
        let a = self.bomb_odds(first_opponent(seat));
        let b = self.bomb_odds(second_opponent(seat));
        if a.num >= b.num {
            a
        } else {
            b
        }
    }

    /// A seat's share of the unseen cards, nothing for the own seat.
    pub open spec fn share(self, seat: Seat) -> int {
        if seat == self.me {
            0
        } else {
            lesser(self.left_at(seat) as int, self.pool.len() as int)
        }
    }

    /// Chance that anyone else holds a card of a rank, at most one.
    pub open spec fn others_rank_odds(self, rank: Rank) -> Odds {
        let t = self.pool.len() as int;
        if t == 0 {
            never()
        } else {
            Odds {
                num: lesser(
                    count_rank(self.pool, rank) * (self.share(Seat::E) + self.share(Seat::S)
                        + self.share(Seat::W) + self.share(Seat::N)),
                    t * t,
                ),
                den: t * t,
            }
        }
    }

    /// Chance that neither the partner of a seat nor anyone else holds a card of a rank.
    pub open spec fn need(self, seat: Seat, rank: Rank) -> Odds {
        let t = self.pool.len() as int;
        if t == 0 {
            Odds { num: 1, den: 1 }
        } else {
            let sq = t * t;
            let partner = self.rank_odds(partner_of(seat), rank);
            Odds { num: (sq - partner.num) * (sq - self.others_rank_odds(rank).num), den: sq * sq }
        }
    }

    /// Chance of winning: the own team's share of the cards that are left, less three tenths
    /// of the chance that an opponent holds a bomb; one half when no cards are left.
    pub open spec fn win_odds(self, seat: Seat) -> Odds {
        let own = self.left_at(seat) + self.left_at(partner_of(seat));
        let others = self.left_at(first_opponent(seat)) + self.left_at(second_opponent(seat));
        if own + others == 0 {
            Odds { num: 1, den: 2 }
        } else {
            Odds {
                num: own * (4000 - 3 * self.enemy_bomb_odds(seat).num),
                den: (own + others) * 4000,
            }
        }
    }

    /// Whether a seat probably holds a card of a rank: with a chance of more than a tenth.
    pub open spec fn likely(self, seat: Seat, rank: Rank) -> bool {
        10 * self.rank_odds(seat, rank).num > self.rank_odds(seat, rank).den
    }
}

/// The ranks from three up to two.
pub open spec fn plain_rank(i: int) -> Rank {
    if i == 12 {
        Rank::Two
    } else {
        rank_at(i + 3)
    }
}

/// The high ranks from the red joker down to the queen.
pub open spec fn high_rank(i: int) -> Rank {
    if i == 0 {
        Rank::RedJoker
    } else if i == 1 {
        Rank::BlackJoker
    } else if i == 2 {
        Rank::Two
    } else if i == 3 {
        Rank::A
    } else if i == 4 {
        Rank::K
    } else {
        Rank::Q
    }
}

/// The first high rank from the `i`-th on that a seat probably holds.
pub open spec fn strongest_from(s: Seen, seat: Seat, i: int) -> Option<Rank>
    decreases 6 - i,
{
    if i >= 6 {
        None
    } else if s.likely(seat, high_rank(i)) {
        Some(high_rank(i))
    } else {
        strongest_from(s, seat, i + 1)
    }
}

/// Where a need goes in a list that runs from the greatest down: behind its equals.
pub open spec fn need_place(list: Seq<Need>, num: u128, i: int) -> int
    decreases list.len() - i,
{
    if i < 0 || i >= list.len() || list[i].score.num < num {
        i
    } else {
        need_place(list, num, i + 1)
    }
}

/// The needs of the first `n` ranks that exceed a twentieth, greatest first.
pub open spec fn needs(s: Seen, seat: Seat, n: int) -> Seq<Need>
    decreases n,
{
    if n <= 0 {
        Seq::empty()
    } else {
        let before = needs(s, seat, n - 1);
        let odds = s.need(seat, plain_rank(n - 1));
        if 20 * odds.num > odds.den {
            let score = Chance { num: odds.num as u128, den: odds.den as u128 };
            before.insert(
                need_place(before, score.num, 0),
                Need { rank: plain_rank(n - 1), score },
            )
        } else {
            before
        }
    }
}

/// The greatest slot of the first `n` cards.
pub open spec fn top_slot(cards: Seq<Card>, n: int) -> int
    decreases n,
{
    if n <= 0 {
        0
    } else if slot(cards[n - 1].rank) > top_slot(cards, n - 1) {
        slot(cards[n - 1].rank)
    } else {
        top_slot(cards, n - 1)
    }
}

pub open spec fn rank_in_slot(v: int) -> Rank {
    if v == 15 {
        Rank::Two
    } else if v == 16 {
        Rank::BlackJoker
    } else if v == 17 {
        Rank::RedJoker
    } else if 3 <= v <= 14 {
        rank_at(v)
    } else {
        Rank::Three
    }
}

/// The own team's share of the cards that are left, but at least one half.
pub open spec fn team_share(s: Seen, seat: Seat) -> Odds {
    let own = (s.left_at(seat) + s.left_at(partner_of(seat))) as int;
    let others = (s.left_at(first_opponent(seat)) + s.left_at(second_opponent(seat))) as int;
    if 2 * own <= own + others {
        Odds { num: 1, den: 2 }
    } else {
        Odds { num: own, den: own + others }
    }
}

/// How good a play is for winning: six tenths of the chance that no opponent can follow, two
/// tenths of how far the own hand is played out, two tenths of the team's share.
pub open spec fn play_win(s: Seen, seat: Seat, cards: Seq<Card>) -> (int, int) {
    if cards.len() == 0 {
        (0, 1)
    } else {
        let rank = rank_in_slot(top_slot(cards, cards.len() as int));
        let a = s.follow_odds(first_opponent(seat), rank);
        let b = s.follow_odds(second_opponent(seat), rank);
        let free = (a.den - a.num) * (b.den - b.num);
        let all = a.den * b.den;
        let share = team_share(s, seat);
        (
            75 * free * share.den + (25 - s.left_at(seat)) * all * share.den + 25 * share.num * all,
            125 * all * share.den,
        )
    }
}

fn nth_plain_rank(i: usize) -> (rank: Rank)
    requires
        i < 13,
    ensures
        rank == plain_rank(i as int),
{
    if i == 12 {
        Rank::Two
    } else {
        rank_from_value((i + 3) as u8)
    }
}

fn rank_for_slot(v: u8) -> (rank: Rank)
    ensures
        rank == rank_in_slot(v as int),
{
    match v {
        15 => Rank::Two,
        16 => Rank::BlackJoker,
        17 => Rank::RedJoker,
        3..=14 => rank_from_value(v),
        _ => Rank::Three,
    }
}

fn opponents_of(seat: Seat) -> (seats: (Seat, Seat))
    ensures
        seats == (first_opponent(seat), second_opponent(seat)),
{
    match seat {
        Seat::E | Seat::W => (Seat::S, Seat::N),
        Seat::S | Seat::N => (Seat::E, Seat::W),
    }
}

impl ProbabilisticReasoner {
    /// What the reasoner has seen.
    pub closed spec fn seen(&self) -> Seen {
        self.tracker@
    }

    /// There is a number for each seat, and no more unseen cards than one deck has.
    pub closed spec fn wf(&self) -> bool {
        self.tracker.wf()
    }

    /// Reasons from a tracker.
    pub fn new(tracker: HandTracker) -> (reasoner: Self)
        ensures
            reasoner.seen() == tracker@,
            tracker.wf() ==> reasoner.wf(),
    {
        ProbabilisticReasoner { tracker }
    }

    /// The tracker.
    pub fn tracker(&self) -> (tracker: &HandTracker)
        ensures
            tracker@ == self.seen(),
            self.wf() ==> tracker.wf(),
    {
        &self.tracker
    }

    /// The tracker, to be changed.
    pub fn tracker_mut(&mut self) -> (tracker: &mut HandTracker)
        ensures
            tracker@ == old(self).seen(),
            old(self).wf() ==> tracker.wf(),
            final(self).seen() == final(tracker)@,
            final(self).wf() == final(tracker).wf(),
    {
        &mut self.tracker
    }

    /// The greater of the opponents' chances of a bomb.
    pub fn calculate_opponent_bomb_prob(&self, my_seat: Seat) -> (chance: Chance)
        requires
            self.wf(),
        ensures
            chance@ == self.seen().enemy_bomb_odds(my_seat),
            chance.num <= 400,
            chance.den == 400,
    {
        let (a, b) = opponents_of(my_seat);
        let x = self.tracker.get_prob_has_bomb(a);
        let y = self.tracker.get_prob_has_bomb(b);
        if x.num >= y.num {
            x
        } else {
            y
        }
    }

    fn share_of(&self, seat: Seat) -> (n: u128)
        requires
            self.wf(),
        ensures
            n == self.seen().share(seat),
            n <= self.seen().pool.len(),
    {
        let own: usize = self.tracker.get_remaining_count(seat);
        let total: usize = self.tracker.get_remaining_pool_size();
        if self.is_own_seat(seat) {
            0
        } else if own <= total {
            own as u128
        } else {
            total as u128
        }
    }

    fn is_own_seat(&self, seat: Seat) -> (b: bool)
        ensures
            b == (seat == self.seen().me),
    {
        self.tracker.is_my_seat(seat)
    }

    /// Chance that anyone else holds a card of a rank.
    pub fn calculate_opponent_has_rank(&self, rank: Rank) -> (chance: Chance)
        requires
            self.wf(),
        ensures
            chance@ == self.seen().others_rank_odds(rank),
            chance.num <= chance.den <= 54 * 54,
            chance.den > 0,
    {
        let total: u128 = self.tracker.get_remaining_pool_size() as u128;
        if total == 0 {
            return Chance { num: 0, den: 1 };
        }
        let n: u128 = self.tracker.count_in_pool(rank) as u128;
        let shares: u128 = self.share_of(Seat::E) + self.share_of(Seat::S) + self.share_of(Seat::W)
            + self.share_of(Seat::N);
        proof {
            assert(0 <= n * shares <= 54 * 216) by (nonlinear_arith)
                requires
                    0 <= n <= 54,
                    0 <= shares <= 216,
            ;
            assert(0 < total * total <= 54 * 54) by (nonlinear_arith)
                requires
                    0 < total <= 54,
            ;
        }
        let num: u128 = n * shares;
        let den: u128 = total * total;
        if num <= den {
            Chance { num, den }
        } else {
            Chance { num: den, den }
        }
    }

    /// How much the partner of a seat needs a rank led.
    fn need_of(&self, my_seat: Seat, rank: Rank) -> (chance: Chance)
        requires
            self.wf(),
        ensures
            chance@ == self.seen().need(my_seat, rank),
            chance.num <= 54 * 54 * 54 * 54,
            chance.den <= 54 * 54 * 54 * 54,
    {
        let total: u128 = self.tracker.get_remaining_pool_size() as u128;
        if total == 0 {
            return Chance { num: 1, den: 1 };
        }
        let partner = self.tracker.get_prob_rank_in_hand(my_seat.teammate(), rank);
        let others = self.calculate_opponent_has_rank(rank);
        proof {
            assert(0 < total * total <= 54 * 54) by (nonlinear_arith)
                requires
                    0 < total <= 54,
            ;
        }
        let sq: u128 = total * total;
        let x: u128 = sq - partner.num;
        let y: u128 = sq - others.num;
        proof {
            assert(0 <= x * y <= 2916 * 2916 && sq * sq <= 2916 * 2916) by (nonlinear_arith)
                requires
                    0 <= x <= sq,
                    0 <= y <= sq,
                    sq <= 2916,
            ;
        }
        Chance { num: x * y, den: sq * sq }
    }

    /// The ranks that the partner needs, most needed first; none where the partner is out.
    pub fn calculate_partner_needs(&self, my_seat: Seat) -> (list: Vec<Need>)
        requires
            self.wf(),
        ensures
            list@ == if self.seen().left_at(partner_of(my_seat)) == 0 {
                Seq::<Need>::empty()
            } else {
                needs(self.seen(), my_seat, 13)
            },
    {
        let mut list: Vec<Need> = Vec::new();
        if self.tracker.get_remaining_count(my_seat.teammate()) == 0 {
            assert(list@ =~= Seq::<Need>::empty());
            return list;
        }
        assert(list@ =~= needs(self.seen(), my_seat, 0));
        for i in 0..13
            invariant
                self.wf(),
                list@ == needs(self.seen(), my_seat, i as int),
        {
            let rank = nth_plain_rank(i);
            let score = self.need_of(my_seat, rank);
            if 20 * score.num > score.den {
                let mut at: usize = 0;
                while at < list.len() && list[at].score.num >= score.num
                    invariant
                        at <= list@.len(),
                        need_place(list@, score.num, 0) == need_place(
                            list@,
                            score.num,
                            at as int,
                        ),
                    decreases list@.len() - at,
                {
                    at = at + 1;
                }
                list.insert(at, Need { rank, score });
            }
        }
        list
    }

    /// How good a play is for winning.
    pub fn calculate_win_prob(&self, my_seat: Seat, my_cards: &[Card]) -> (value: Fraction)
        requires
            self.wf(),
            self.seen().seats_sized(),
        ensures
            (value.num as int, value.den as int) == play_win(self.seen(), my_seat, my_cards@),
            value.den > 0,
    {
        if my_cards.len() == 0 {
            return Fraction { num: 0, den: 1 };
        }
        let mut top: u8 = 0;
        for i in 0..my_cards.len()
            invariant
                top == top_slot(my_cards@, i as int),
        {
            let v: u8 = rank_slot(my_cards[i].rank);
            if v > top {
                top = v;
            }
        }
        let rank = rank_for_slot(top);
        let (first, second) = opponents_of(my_seat);
        let a = self.tracker.get_prob_can_follow(first, rank);
        let b = self.tracker.get_prob_can_follow(second, rank);
        let left: i128 = self.tracker.get_remaining_count(my_seat) as i128;
        let own: i128 = left + self.tracker.get_remaining_count(my_seat.teammate()) as i128;
        let others: i128 = self.tracker.get_remaining_count(first) as i128
            + self.tracker.get_remaining_count(second) as i128;
        let (num, den): (i128, i128) = if 2 * own <= own + others {
            (1, 2)
        } else {
            (own, own + others)
        };
        let x: i128 = (a.den - a.num) as i128;
        let y: i128 = (b.den - b.num) as i128;
        proof {
            assert(0 <= x * y <= 2916 && 0 < a.den * b.den <= 2916) by (nonlinear_arith)
                requires
                    0 <= x <= 54,
                    0 <= y <= 54,
                    0 < a.den <= 54,
                    0 < b.den <= 54,
            ;
        }
        let free: i128 = x * y;
        let all: i128 = a.den as i128 * b.den as i128;
        proof {
            let k = 25 - left;
            let most = 0x200_0000_0000_0000int;
            assert(0 <= free * den <= 2916 * most && 0 < all * den <= 2916 * most && 0 <= num * all
                <= 2916 * most) by (nonlinear_arith)
                requires
                    0 <= free <= 2916,
                    0 < all <= 2916,
                    0 < den <= most,
                    0 <= num <= most,
            ;
            assert(75 * free * den == 75 * (free * den)) by (nonlinear_arith);
            assert(125 * all * den == 125 * (all * den)) by (nonlinear_arith);
            assert(25 * num * all == 25 * (num * all)) by (nonlinear_arith);
            assert(k * all * den == k * (all * den)) by (nonlinear_arith);
            assert(-most * (2916 * most) <= k * (all * den) <= 25 * (2916 * most))
                by (nonlinear_arith)
                requires
                    -most <= k <= 25,
                    0 < all * den <= 2916 * most,
                    most > 25,
            ;
            assert(-most * 2916 <= k * all <= 25 * 2916) by (nonlinear_arith)
                requires
                    -most <= k <= 25,
                    0 < all <= 2916,
                    most > 25,
            ;
        }
        Fraction {
            num: 75 * free * den + (25 - left) * all * den + 25 * num * all,
            den: 125 * all * den,
        }
    }

    /// Chance of winning the game.
    pub fn calculate_game_win_prob(&self, my_seat: Seat) -> (chance: Chance)
        requires
            self.wf(),
        ensures
            chance@ == self.seen().win_odds(my_seat),
            chance.num <= 4000 * 4 * 0x1_0000_0000_0000_0000,
            0 < chance.den <= 4000 * 4 * 0x1_0000_0000_0000_0000,
    {
        let (a, b) = opponents_of(my_seat);
        let own: u128 = self.tracker.get_remaining_count(my_seat) as u128
            + self.tracker.get_remaining_count(my_seat.teammate()) as u128;
        let others: u128 = self.tracker.get_remaining_count(a) as u128
            + self.tracker.get_remaining_count(b) as u128;
        if own + others == 0 {
            return Chance { num: 1, den: 2 };
        }
        let bomb: u128 = self.calculate_opponent_bomb_prob(my_seat).num;
        let factor: u128 = 4000 - 3 * bomb;
        proof {
            assert(0 <= own * factor <= own * 4000) by (nonlinear_arith)
                requires
                    0 <= own,
                    0 <= factor <= 4000,
            ;
        }
        Chance { num: own * factor, den: (own + others) * 4000 }
    }

    /// Whether the partner is about to run out of cards.
    pub fn is_partner_sprinting(&self, my_seat: Seat, threshold: u8) -> (b: bool)
        requires
            self.wf(),
        ensures
            b == (self.seen().left_at(partner_of(my_seat)) <= threshold),
    {
        self.tracker.get_remaining_count(my_seat.teammate()) <= threshold as usize
    }

    /// Whether an opponent is about to run out of cards, or has.
    pub fn is_any_enemy_sprinting(&self, my_seat: Seat, threshold: u8) -> (b: bool)
        requires
            self.wf(),
        ensures
            b == (self.seen().left_at(first_opponent(my_seat)) <= threshold || self.seen().left_at(
                second_opponent(my_seat),
            ) <= threshold),
    {
        let (a, b) = opponents_of(my_seat);
        self.tracker.get_remaining_count(a) <= threshold as usize
            || self.tracker.get_remaining_count(b) <= threshold as usize
    }

    /// The highest rank, from the queen up, that a seat probably holds, and the chance of it.
    pub fn get_strongest_card_prob(&self, seat: Seat) -> (found: Option<(Rank, Chance)>)
        requires
            self.wf(),
        ensures
            match found {
                Some((rank, chance)) => strongest_from(self.seen(), seat, 0) == Some(rank)
                    && chance@ == self.seen().rank_odds(seat, rank),
                None => strongest_from(self.seen(), seat, 0) is None,
            },
    {
        let mut i: usize = 0;
        while i < 6
            invariant
                self.wf(),
                i <= 6,
                strongest_from(self.seen(), seat, 0) == strongest_from(
                    self.seen(),
                    seat,
                    i as int,
                ),
            decreases 6 - i,
        {
            let rank = match i {
                0 => Rank::RedJoker,
                1 => Rank::BlackJoker,
                2 => Rank::Two,
                3 => Rank::A,
                4 => Rank::K,
                _ => Rank::Q,
            };
            let chance = self.tracker.get_prob_rank_in_hand(seat, rank);
            proof {
                let t = self.seen().pool.len();
                assert(t * t <= 54 * 54) by (nonlinear_arith)
                    requires
                        0 <= t <= 54,
                ;
            }
            if 10 * chance.num > chance.den {
                return Some((rank, chance));
            }
            i = i + 1;
        }
        None
    }
}

/// Chances lie between none and certainty.
pub proof fn chances_are_proper(s: Seen, seat: Seat, rank: Rank)
    requires
        s.left.len() == 4,
    ensures
        0 <= s.rank_odds(seat, rank).num <= s.rank_odds(seat, rank).den,
        0 <= s.others_rank_odds(rank).num <= s.others_rank_odds(rank).den,
        0 <= s.follow_odds(seat, rank).num <= s.follow_odds(seat, rank).den,
        s.rank_odds(s.me, rank) == never(),
        s.bomb_odds(s.me).num == 0,
{
    let t = s.pool.len() as int;
    lemma_tally_bound(s.pool, of_rank(rank));
    lemma_tally_bound(s.pool, at_least(rank));
    let n = count_rank(s.pool, rank) as int;
    let m = lesser(s.left_at(seat) as int, t);
    assert(0 <= n * m <= t * t) by (nonlinear_arith)
        requires
            0 <= n <= t,
            0 <= m <= t,
    ;
    let shares = s.share(Seat::E) + s.share(Seat::S) + s.share(Seat::W) + s.share(Seat::N);
    assert(0 <= n * shares) by (nonlinear_arith)
        requires
            0 <= n,
            0 <= shares,
    ;
}

/// A rank of which no card is unseen is held by nobody else; another seat with more cards never
/// makes it less likely; the number of own cards does not matter.
pub proof fn unseen_ranks_are_likely(s: Seen, t: Seen, rank: Rank)
    requires
        s.left.len() == 4,
        t == (Seen { left: t.left, ..s }),
        t.left.len() == 4,
        forall|seat: Seat| seat != s.me ==> #[trigger] s.left_at(seat) <= t.left_at(seat),
    ensures
        count_rank(s.pool, rank) == 0 ==> s.others_rank_odds(rank).num == 0,
        s.others_rank_odds(rank).num <= t.others_rank_odds(rank).num,
        s.others_rank_odds(rank).den == t.others_rank_odds(rank).den,
        (forall|seat: Seat| seat != s.me ==> #[trigger] s.left_at(seat) == t.left_at(seat))
            ==> s.others_rank_odds(rank) == t.others_rank_odds(rank),
{
    let total = s.pool.len() as int;
    if total != 0 {
        let a = s.share(Seat::E) + s.share(Seat::S) + s.share(Seat::W) + s.share(Seat::N);
        let b = t.share(Seat::E) + t.share(Seat::S) + t.share(Seat::W) + t.share(Seat::N);
        let n = count_rank(s.pool, rank) as int;
        assert(s.left_at(Seat::E) <= t.left_at(Seat::E) || s.me == Seat::E);
        assert(s.left_at(Seat::S) <= t.left_at(Seat::S) || s.me == Seat::S);
        assert(s.left_at(Seat::W) <= t.left_at(Seat::W) || s.me == Seat::W);
        assert(s.left_at(Seat::N) <= t.left_at(Seat::N) || s.me == Seat::N);
        assert(a <= b);
        assert(n * a <= n * b) by (nonlinear_arith)
            requires
                0 <= n,
                a <= b,
        ;
        assert(0 * a == 0) by (nonlinear_arith);
        assert(0 <= total * total) by (nonlinear_arith);
        if forall|seat: Seat| seat != s.me ==> #[trigger] s.left_at(seat) == t.left_at(seat) {
            assert(s.left_at(Seat::E) == t.left_at(Seat::E) || s.me == Seat::E);
            assert(s.left_at(Seat::S) == t.left_at(Seat::S) || s.me == Seat::S);
            assert(s.left_at(Seat::W) == t.left_at(Seat::W) || s.me == Seat::W);
            assert(s.left_at(Seat::N) == t.left_at(Seat::N) || s.me == Seat::N);
            assert(a == b);
        }
    }
}

/// The bomb that counts against a team is the likelier of the opponents' bombs, a seat with fewer
/// than four cards having none.
pub proof fn likelier_bomb_counts(s: Seen, seat: Seat, other: Seat)
    requires
        team_of(other) != team_of(seat),
    ensures
        s.enemy_bomb_odds(seat).num >= s.bomb_odds(other).num,
        s.enemy_bomb_odds(seat) == s.bomb_odds(first_opponent(seat)) || s.enemy_bomb_odds(seat)
            == s.bomb_odds(second_opponent(seat)),
        s.left_at(other) < 4 ==> s.bomb_odds(other).num == 0,
        s.left_at(first_opponent(seat)) < 4 && s.left_at(second_opponent(seat)) < 4
            ==> s.enemy_bomb_odds(seat).num == 0,
{
}

/// The chance of winning is the own team's share of the cards that are left, where no opponent can
/// have a bomb, and a likely bomb lowers it, to seven tenths at most; it is even where nobody has
/// cards left.
pub proof fn teams_win_by_cards_and_bombs(s: Seen, seat: Seat)
    ensures
        ({
            let own = s.left_at(seat) + s.left_at(partner_of(seat));
            let others = s.left_at(first_opponent(seat)) + s.left_at(second_opponent(seat));
            let win = s.win_odds(seat);
            let x = s.enemy_bomb_odds(seat).num;
            &&& own + others == 0 ==> 2 * win.num == win.den
            &&& own + others > 0 && x == 0 ==> win.num * (own + others) == own * win.den
            &&& own + others > 0 && x == 400 ==> 10 * win.num * (own + others) == 7 * own * win.den
            &&& own > 0 && x > 0 ==> win.num * (own + others) < own * win.den
        }),
{
    let own = s.left_at(seat) + s.left_at(partner_of(seat));
    let others = s.left_at(first_opponent(seat)) + s.left_at(second_opponent(seat));
    let x = s.enemy_bomb_odds(seat).num;
    let all = own + others;
    assert(x == 0 ==> own * (4000 - 3 * x) * all == own * (all * 4000)) by (nonlinear_arith);
    assert(x == 400 ==> 10 * (own * (4000 - 3 * x)) * all == 7 * own * (all * 4000))
        by (nonlinear_arith);
    assert(own > 0 && x > 0 ==> own * (4000 - 3 * x) * all < own * (all * 4000))
        by (nonlinear_arith)
        requires
            all == own + others,
            others >= 0,
    ;
}

proof fn lemma_strongest(s: Seen, seat: Seat, i: int)
    requires
        0 <= i <= 6,
    ensures
        match strongest_from(s, seat, i) {
            Some(rank) => exists|k: int|
                i <= k < 6 && rank == #[trigger] high_rank(k) && s.likely(seat, rank) && forall|j: int|
                    i <= j < k ==> !s.likely(seat, #[trigger] high_rank(j)),
            None => forall|j: int| i <= j < 6 ==> !s.likely(seat, #[trigger] high_rank(j)),
        },
    decreases 6 - i,
{
    if i < 6 {
        lemma_strongest(s, seat, i + 1);
        assert(high_rank(i) == high_rank(i));
    }
}

/// The strongest rank of a seat is the highest from the queen up, jokers and the two above the
/// ace, that it holds with a chance of more than a tenth.
pub proof fn strongest_rank_is_the_highest_likely(s: Seen, seat: Seat, rank: Rank)
    requires
        slot(rank) >= slot(Rank::Q),
        10 * s.rank_odds(seat, rank).num > s.rank_odds(seat, rank).den,
    ensures
        strongest_from(s, seat, 0) matches Some(best) && slot(best) >= slot(rank) && 10
            * s.rank_odds(seat, best).num > s.rank_odds(seat, best).den,
{
    lemma_strongest(s, seat, 0);
    let j: int = if rank == Rank::RedJoker {
        0
    } else if rank == Rank::BlackJoker {
        1
    } else if rank == Rank::Two {
        2
    } else if rank == Rank::A {
        3
    } else if rank == Rank::K {
        4
    } else {
        5
    };
    assert(high_rank(j) == rank);
    assert(s.likely(seat, high_rank(j)));
}

proof fn lemma_need_place(list: Seq<Need>, num: u128, i: int)
    requires
        0 <= i <= list.len(),
    ensures
        i <= need_place(list, num, i) <= list.len(),
        forall|j: int| i <= j < need_place(list, num, i) ==> (#[trigger] list[j]).score.num >= num,
        need_place(list, num, i) < list.len() ==> list[need_place(list, num, i)].score.num < num,
    decreases list.len() - i,
{
    if i < list.len() && list[i].score.num >= num {
        lemma_need_place(list, num, i + 1);
    }
}

/// What the partner needs is listed with the greatest need first.
pub proof fn greatest_need_comes_first(s: Seen, seat: Seat, n: int)
    requires
        0 <= n,
    ensures
        forall|i: int, j: int|
            0 <= i <= j < needs(s, seat, n).len() ==> (#[trigger] needs(s, seat, n)[i]).score.num
                >= (#[trigger] needs(s, seat, n)[j]).score.num,
    decreases n,
{
    if n > 0 {
        greatest_need_comes_first(s, seat, n - 1);
        let before = needs(s, seat, n - 1);
        let odds = s.need(seat, plain_rank(n - 1));
        if 20 * odds.num > odds.den {
            let num = odds.num as u128;
            let at = need_place(before, num, 0);
            lemma_need_place(before, num, 0);
            let list = needs(s, seat, n);
            let item = Need {
                rank: plain_rank(n - 1),
                score: Chance { num, den: odds.den as u128 },
            };
            assert(list == before.insert(at, item));
            assert forall|i: int, j: int| 0 <= i <= j < list.len() implies (
            #[trigger] list[i]).score.num >= (#[trigger] list[j]).score.num by {
                if i < at {
                    assert(list[i] == before[i]);
                } else if i > at {
                    assert(list[i] == before[i - 1]);
                }
                if j < at {
                    assert(list[j] == before[j]);
                } else if j > at {
                    assert(list[j] == before[j - 1]);
                    if i <= at && at < before.len() {
                        assert(before[at].score.num >= before[j - 1].score.num);
                    }
                }
            }
        }
    }
}

/// The greatest slot of some cards is that of one of them, and no card is above it.
pub proof fn top_slot_is_the_highest(cards: Seq<Card>, n: int)
    requires
        0 <= n <= cards.len(),
    ensures
        forall|i: int| 0 <= i < n ==> slot((#[trigger] cards[i]).rank) <= top_slot(cards, n),
        n > 0 ==> exists|i: int| 0 <= i < n && slot((#[trigger] cards[i]).rank) == top_slot(cards, n),
        n == 0 ==> top_slot(cards, n) == 0,
    decreases n,
{
    if n > 0 {
        top_slot_is_the_highest(cards, n - 1);
        assert(cards[n - 1] == cards[n - 1]);
        if n > 1 && slot(cards[n - 1].rank) <= top_slot(cards, n - 1) {
            let i = choose|i: int|
                0 <= i < n - 1 && slot((#[trigger] cards[i]).rank) == top_slot(cards, n - 1);
            assert(slot(cards[i].rank) == top_slot(cards, n));
        }
    }
}

/// Of two plays the one that neither opponent is more likely to follow is no worse for winning: the
/// opponents' chances to follow count against a play.
pub proof fn harder_plays_win_more(s: Seen, seat: Seat, a: Seq<Card>, b: Seq<Card>)
    requires
        a.len() > 0,
        b.len() > 0,
        s.left.len() == 4,
        ({
            let x = rank_in_slot(top_slot(a, a.len() as int));
            let y = rank_in_slot(top_slot(b, b.len() as int));
            &&& s.follow_odds(first_opponent(seat), x).num <= s.follow_odds(
                first_opponent(seat),
                y,
            ).num
            &&& s.follow_odds(second_opponent(seat), x).num <= s.follow_odds(
                second_opponent(seat),
                y,
            ).num
        }),
    ensures
        play_win(s, seat, a).0 >= play_win(s, seat, b).0,
        play_win(s, seat, a).1 == play_win(s, seat, b).1,
{
    let x = rank_in_slot(top_slot(a, a.len() as int));
    let y = rank_in_slot(top_slot(b, b.len() as int));
    let p = s.follow_odds(first_opponent(seat), x);
    let q = s.follow_odds(second_opponent(seat), x);
    let u = s.follow_odds(first_opponent(seat), y);
    let v = s.follow_odds(second_opponent(seat), y);
    chances_are_proper(s, first_opponent(seat), x);
    chances_are_proper(s, second_opponent(seat), x);
    chances_are_proper(s, first_opponent(seat), y);
    chances_are_proper(s, second_opponent(seat), y);
    let share = team_share(s, seat);
    assert(share.den > 0);
    assert((p.den - p.num) * (q.den - q.num) >= (u.den - u.num) * (v.den - v.num))
        by (nonlinear_arith)
        requires
            p.den == u.den,
            q.den == v.den,
            p.num <= u.num <= u.den,
            q.num <= v.num <= v.den,
    ;
    let f = (p.den - p.num) * (q.den - q.num);
    let g = (u.den - u.num) * (v.den - v.num);
    assert(75 * f * share.den >= 75 * g * share.den) by (nonlinear_arith)
        requires
            f >= g,
            share.den > 0,
    ;
}

} // verus!
