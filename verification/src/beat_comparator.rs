//! Which play beats which.

use vstd::prelude::*;
use crate::combination_parser::{BombKind, Combination, CombinationKind};

verus! {

/// Strength of a bomb before its rank counts: four of a rank, five, the straight flush, six
/// and more, and last the four jokers.
pub open spec fn bomb_tier(kind: BombKind) -> int {
    match kind {
        BombKind::SameRank { n } => if n <= 5 {
            n as int
        } else {
            n + 1
        },
        BombKind::StraightFlush => 6,
        BombKind::FourJoker => 1000,
    }
}

/// Whether `candidate` may be played on `top`.
pub open spec fn beats(top: Combination, candidate: Combination) -> bool {
    match (top.kind, candidate.kind) {
        (CombinationKind::Ordinary(a), CombinationKind::Ordinary(b)) => a == b
            && candidate.primary > top.primary,
        (CombinationKind::Ordinary(_), CombinationKind::Bomb(_)) => true,
        (CombinationKind::Bomb(_), CombinationKind::Ordinary(_)) => false,
        (CombinationKind::Bomb(a), CombinationKind::Bomb(b)) => bomb_tier(b) > bomb_tier(a) || (
        bomb_tier(b) == bomb_tier(a) && candidate.primary > top.primary),
    }
}

/// Nothing beats itself, no two combinations beat each other, and what beats a combination
/// also beats all that it beats.
pub proof fn beating_is_a_strict_order(a: Combination, b: Combination, c: Combination)
    ensures
        !beats(a, a),
        !(beats(a, b) && beats(b, a)),
        beats(a, b) && beats(b, c) ==> beats(a, c),
{
}

pub struct BeatComparator;

impl BeatComparator {
    fn tier(kind: BombKind) -> (tier: u16)
        ensures
            tier == bomb_tier(kind),
    {
        match kind {
            BombKind::SameRank { n } => if n <= 5 {
                n as u16
            } else {
                n as u16 + 1
            },
            BombKind::StraightFlush => 6,
            BombKind::FourJoker => 1000,
        }
    }

    /// Whether `candidate` may be played on `top`.
    pub fn can_beat(top: &Combination, candidate: &Combination) -> (b: bool)
        ensures
            b == beats(*top, *candidate),
    {
        match (top.kind, candidate.kind) {
            (CombinationKind::Ordinary(a), CombinationKind::Ordinary(b)) => a == b
                && candidate.primary > top.primary,
            (CombinationKind::Ordinary(_), CombinationKind::Bomb(_)) => true,
            (CombinationKind::Bomb(_), CombinationKind::Ordinary(_)) => false,
            (CombinationKind::Bomb(a), CombinationKind::Bomb(b)) => {
                let below: u16 = Self::tier(a);
                let above: u16 = Self::tier(b);
                above > below || (above == below && candidate.primary > top.primary)
            },
        }
    }
}

/// What beats what: within a kind the higher value; any bomb beats whatever is none, and nothing
/// else does; of bombs the greater number of equal cards, or the higher value of as many; five
/// lose to a straight flush, which loses to six; the four jokers beat every other bomb.
pub proof fn plays_beat_by_value_and_bombs(a: Combination, b: Combination)
    ensures
        a.kind == b.kind ==> (beats(a, b) <==> b.primary > a.primary),
        !(a.kind is Bomb) && b.kind is Bomb ==> beats(a, b),
        a.kind is Bomb && !(b.kind is Bomb) ==> !beats(a, b),
        !(a.kind is Bomb) && !(b.kind is Bomb) && a.kind != b.kind ==> !beats(a, b),
        a.kind matches CombinationKind::Bomb(BombKind::SameRank { n }) ==> (b.kind
            matches CombinationKind::Bomb(BombKind::SameRank { n: m }) ==> (n < m ==> beats(a, b))),
        b.kind == CombinationKind::Bomb(BombKind::StraightFlush) ==> (a.kind
            matches CombinationKind::Bomb(BombKind::SameRank { n }) ==> (beats(a, b) <==> n <= 5)),
        a.kind == CombinationKind::Bomb(BombKind::StraightFlush) ==> (b.kind
            matches CombinationKind::Bomb(BombKind::SameRank { n }) ==> (beats(a, b) <==> n >= 6)),
        a.kind is Bomb && a.kind != CombinationKind::Bomb(BombKind::FourJoker) && b.kind
            == CombinationKind::Bomb(BombKind::FourJoker) ==> beats(a, b),
{
}

} // verus!
