//! Points for and against a play, term by term.
//!
//! Points have eight decimal places, like the weights: [`UNIT`] stands for one.

use vstd::prelude::*;
use crate::combination_parser::{BombKind, Combination, CombinationKind, OrdinaryKind};
use crate::params::{AdvancedBotParams, weight_ok};
use crate::play_facts::PlayFacts;

verus! {

/// Whole points.
pub open spec fn pts(n: int) -> int {
    n * 100_000_000
}

/// What a single term can amount to.
pub open spec fn within(x: int) -> bool {
    -1_000_000_000_000_000_000_000_000_000_000_000_000 <= x
        <= 1_000_000_000_000_000_000_000_000_000_000_000_000
}

fn points(n: i64) -> (x: i128)
    requires
        -1_000_000 <= n <= 1_000_000,
    ensures
        x == pts(n as int),
        within(x as int),
{
    n as i128 * 100_000_000
}

fn times(n: usize, w: i64) -> (x: i128)
    requires
        weight_ok(w),
    ensures
        x == n * w,
        -20_000_000_000_000_000_000_000_000_000_000_000 <= x
            <= 20_000_000_000_000_000_000_000_000_000_000_000,
{
    proof {
        assert(-20_000_000_000_000_000_000_000_000_000_000_000 <= n * w
            <= 20_000_000_000_000_000_000_000_000_000_000_000) by (nonlinear_arith)
            requires
                0 <= n <= 0xffff_ffff_ffff_ffff,
                -1_000_000_000_000_000 <= w <= 1_000_000_000_000_000,
        ;
    }
    n as i128 * w as i128
}

pub open spec fn is_bomb_kind(kind: CombinationKind) -> bool {
    kind is Bomb
}

fn bomb_kind(kind: CombinationKind) -> (b: bool)
    ensures
        b == is_bomb_kind(kind),
{
    match kind {
        CombinationKind::Bomb(_) => true,
        CombinationKind::Ordinary(_) => false,
    }
}

/// Straights, tubes and plates.
pub open spec fn is_run_kind(kind: CombinationKind) -> bool {
    kind == CombinationKind::Ordinary(OrdinaryKind::Straight) || kind == CombinationKind::Ordinary(
        OrdinaryKind::Tube,
    ) || kind == CombinationKind::Ordinary(OrdinaryKind::Plate)
}

fn run_kind(kind: CombinationKind) -> (b: bool)
    ensures
        b == is_run_kind(kind),
{
    kind == CombinationKind::Ordinary(OrdinaryKind::Straight) || kind == CombinationKind::Ordinary(
        OrdinaryKind::Tube,
    ) || kind == CombinationKind::Ordinary(OrdinaryKind::Plate)
}

pub open spec fn is_large_bomb(kind: CombinationKind) -> bool {
    match kind {
        CombinationKind::Bomb(BombKind::SameRank { n }) => 6 <= n <= 10,
        _ => false,
    }
}

fn large_bomb(kind: CombinationKind) -> (b: bool)
    ensures
        b == is_large_bomb(kind),
{
    match kind {
        CombinationKind::Bomb(BombKind::SameRank { n }) => 6 <= n && n <= 10,
        _ => false,
    }
}

fn share(n: usize, parts: u128) -> (x: u128)
    requires
        parts <= 5,
    ensures
        x == parts * n,
{
    proof {
        assert(0 <= parts * n <= 5 * 0xffff_ffff_ffff_ffff) by (nonlinear_arith)
            requires
                0 <= parts <= 5,
                0 <= n <= 0xffff_ffff_ffff_ffff,
        ;
    }
    parts * n as u128
}

/// Breaking up groups of equal cards.
#[verifier::opaque]
pub open spec fn split_term(f: PlayFacts, p: AdvancedBotParams) -> int {
    -(f.split * p.split_penalty_scale)
}

fn split_points(f: PlayFacts, p: AdvancedBotParams) -> (x: i128)
    requires
        p.ok(),
    ensures
        x == split_term(f, p),
        within(x as int),
{
    reveal(split_term);
    -times(f.split as usize, p.split_penalty_scale)
}

/// A bomb of four cards of the level.
#[verifier::opaque]
pub open spec fn level_bomb_term(f: PlayFacts, kind: CombinationKind) -> int {
    if is_bomb_kind(kind) && f.level_cards >= 4 {
        -pts(99999)
    } else {
        0int
    }
}

fn level_bomb_points(f: PlayFacts, kind: CombinationKind) -> (x: i128)
    ensures
        x == level_bomb_term(f, kind),
        within(x as int),
{
    reveal(level_bomb_term);
    if bomb_kind(kind) && f.level_cards >= 4 {
        -points(99999)
    } else {
        0i128
    }
}

/// Keeping a bomb for the endgame.
#[verifier::opaque]
pub open spec fn keep_bomb_term(f: PlayFacts, p: AdvancedBotParams, kind: CombinationKind) -> int {
    if !is_bomb_kind(kind) && f.count < f.held && f.held - f.count <= 6 && f.bombs >= 1 {
        p.keep_bomb_bonus as int
    } else {
        0int
    }
}

fn keep_bomb_points(f: PlayFacts, p: AdvancedBotParams, kind: CombinationKind) -> (x: i128)
    requires
        p.ok(),
    ensures
        x == keep_bomb_term(f, p, kind),
        within(x as int),
{
    reveal(keep_bomb_term);
    if !bomb_kind(kind) && f.count < f.held && f.held - f.count <= 6 && f.bombs >= 1 {
        p.keep_bomb_bonus as i128
    } else {
        0i128
    }
}

/// A wild card on top of a bomb that needs none.
#[verifier::opaque]
pub open spec fn upgraded_term(f: PlayFacts, p: AdvancedBotParams) -> int {
    if f.count < f.held && f.upgraded && f.min_opponent > 6 {
        if f.held <= 6 {
            -(p.upgraded_bomb_wild_end as int)
        } else {
            -(p.upgraded_bomb_wild_mid as int)
        }
    } else {
        0int
    }
}

fn upgraded_points(f: PlayFacts, p: AdvancedBotParams) -> (x: i128)
    requires
        p.ok(),
    ensures
        x == upgraded_term(f, p),
        within(x as int),
{
    reveal(upgraded_term);
    if f.count < f.held && f.upgraded && f.min_opponent > 6 {
        if f.held <= 6 {
            -(p.upgraded_bomb_wild_end as i128)
        } else {
            -(p.upgraded_bomb_wild_mid as i128)
        }
    } else {
        0i128
    }
}

/// A wild card next to plain cards of the level.
#[verifier::opaque]
pub open spec fn wild_on_level_term(f: PlayFacts, p: AdvancedBotParams, kind: CombinationKind) -> int {
    if f.wilds > 0 && f.count < f.held && f.level_cards > 0 && (kind == CombinationKind::Ordinary(OrdinaryKind::Pair) || kind == CombinationKind::Ordinary(OrdinaryKind::Triple) || is_bomb_kind(kind)) {
        if f.held <= 6 {
            -(p.wild_on_level_end as int)
        } else {
            -(p.wild_on_level_mid as int)
        }
    } else {
        0int
    }
}

fn wild_on_level_points(f: PlayFacts, p: AdvancedBotParams, kind: CombinationKind) -> (x: i128)
    requires
        p.ok(),
    ensures
        x == wild_on_level_term(f, p, kind),
        within(x as int),
{
    reveal(wild_on_level_term);
    if f.wilds > 0 && f.count < f.held && f.level_cards > 0 && (kind == CombinationKind::Ordinary(OrdinaryKind::Pair) || kind == CombinationKind::Ordinary(OrdinaryKind::Triple) || bomb_kind(kind)) {
        if f.held <= 6 {
            -(p.wild_on_level_end as i128)
        } else {
            -(p.wild_on_level_mid as i128)
        }
    } else {
        0i128
    }
}

/// A bomb of nothing but wild cards and cards of the level.
#[verifier::opaque]
pub open spec fn level_face_term(f: PlayFacts, p: AdvancedBotParams, kind: CombinationKind) -> int {
    if f.wilds > 0 && f.count < f.held && is_bomb_kind(kind) && f.level_faces {
        if f.held <= 6 {
            -(p.dual_wild_penalty_end as int)
        } else {
            -(p.dual_wild_penalty_mid as int)
        }
    } else {
        0int
    }
}

fn level_face_points(f: PlayFacts, p: AdvancedBotParams, kind: CombinationKind) -> (x: i128)
    requires
        p.ok(),
    ensures
        x == level_face_term(f, p, kind),
        within(x as int),
{
    reveal(level_face_term);
    if f.wilds > 0 && f.count < f.held && bomb_kind(kind) && f.level_faces {
        if f.held <= 6 {
            -(p.dual_wild_penalty_end as i128)
        } else {
            -(p.dual_wild_penalty_mid as i128)
        }
    } else {
        0i128
    }
}

/// A wild card alone or in a plain pair.
#[verifier::opaque]
pub open spec fn wild_waste_term(f: PlayFacts, p: AdvancedBotParams, kind: CombinationKind, rescue: bool) -> int {
    if f.wilds == 0 {
        0int
    } else if kind == CombinationKind::Ordinary(OrdinaryKind::Single) {
        if f.count < f.held {
            -pts(99999)
        } else {
            -pts(10)
        }
    } else if kind == CombinationKind::Ordinary(OrdinaryKind::Pair) && f.count < f.held && !rescue && f.plain_pair {
        if f.held <= 6 {
            -(p.wild_pair_penalty_end as int)
        } else {
            -(p.wild_plain_pair_mid as int)
        }
    } else {
        0int
    }
}

fn wild_waste_points(f: PlayFacts, p: AdvancedBotParams, kind: CombinationKind, rescue: bool) -> (x: i128)
    requires
        p.ok(),
    ensures
        x == wild_waste_term(f, p, kind, rescue),
        within(x as int),
{
    reveal(wild_waste_term);
    if f.wilds == 0 {
        0i128
    } else if kind == CombinationKind::Ordinary(OrdinaryKind::Single) {
        if f.count < f.held {
            -points(99999)
        } else {
            -points(10)
        }
    } else if kind == CombinationKind::Ordinary(OrdinaryKind::Pair) && f.count < f.held && !rescue && f.plain_pair {
        if f.held <= 6 {
            -(p.wild_pair_penalty_end as i128)
        } else {
            -(p.wild_plain_pair_mid as i128)
        }
    } else {
        0i128
    }
}

/// A bomb broken up against the rules.
#[verifier::opaque]
pub open spec fn broken_bomb_term(f: PlayFacts, kind: CombinationKind) -> int {
    if !is_bomb_kind(kind) && f.split_banned {
        -pts(99999)
    } else {
        0int
    }
}

fn broken_bomb_points(f: PlayFacts, kind: CombinationKind) -> (x: i128)
    ensures
        x == broken_bomb_term(f, kind),
        within(x as int),
{
    reveal(broken_bomb_term);
    if !bomb_kind(kind) && f.split_banned {
        -points(99999)
    } else {
        0i128
    }
}

/// Two wild cards in one play.
#[verifier::opaque]
pub open spec fn dual_wild_term(f: PlayFacts, p: AdvancedBotParams, kind: CombinationKind) -> int {
    if f.count < f.held && f.wilds >= 2 {
        if f.held <= 6 && !f.bare && f.level_cards == 0 && (is_bomb_kind(kind) || kind == CombinationKind::Ordinary(OrdinaryKind::FullHouse) || kind == CombinationKind::Ordinary(OrdinaryKind::Plate) || kind == CombinationKind::Ordinary(OrdinaryKind::Tube)) {
            -pts(10)
        } else {
            (if f.held <= 6 {
                -(p.dual_wild_penalty_end as int)
            } else {
                -(p.dual_wild_penalty_mid as int)
            }) + (if f.bare {
                -(p.bare_dual_wild_extra as int)
            } else {
                0int
            })
        }
    } else {
        0int
    }
}

fn dual_wild_points(f: PlayFacts, p: AdvancedBotParams, kind: CombinationKind) -> (x: i128)
    requires
        p.ok(),
    ensures
        x == dual_wild_term(f, p, kind),
        within(x as int),
{
    reveal(dual_wild_term);
    if f.count < f.held && f.wilds >= 2 {
        if f.held <= 6 && !f.bare && f.level_cards == 0 && (bomb_kind(kind) || kind == CombinationKind::Ordinary(OrdinaryKind::FullHouse) || kind == CombinationKind::Ordinary(OrdinaryKind::Plate) || kind == CombinationKind::Ordinary(OrdinaryKind::Tube)) {
            -points(10)
        } else {
            (if f.held <= 6 {
                -(p.dual_wild_penalty_end as i128)
            } else {
                -(p.dual_wild_penalty_mid as i128)
            }) + (if f.bare {
                -(p.bare_dual_wild_extra as i128)
            } else {
                0i128
            })
        }
    } else {
        0i128
    }
}

/// Wild cards that could still complete a bomb.
#[verifier::opaque]
pub open spec fn conserve_term(f: PlayFacts, kind: CombinationKind) -> int {
    if f.wilds >= 1 && !is_bomb_kind(kind) && f.count < f.held && f.min_opponent > 6 && f.could_form {
        -pts(150)
    } else {
        0int
    }
}

fn conserve_points(f: PlayFacts, kind: CombinationKind) -> (x: i128)
    ensures
        x == conserve_term(f, kind),
        within(x as int),
{
    reveal(conserve_term);
    if f.wilds >= 1 && !bomb_kind(kind) && f.count < f.held && f.min_opponent > 6 && f.could_form {
        -points(150)
    } else {
        0i128
    }
}

/// Wild cards left without plain ones.
#[verifier::opaque]
pub open spec fn strand_term(f: PlayFacts) -> int {
    if f.count < f.held && f.strands {
        -pts(800)
    } else {
        0int
    }
}

fn strand_points(f: PlayFacts) -> (x: i128)
    ensures
        x == strand_term(f),
        within(x as int),
{
    reveal(strand_term);
    if f.count < f.held && f.strands {
        -points(800)
    } else {
        0i128
    }
}

/// A full house with a pair of the level.
#[verifier::opaque]
pub open spec fn level_pair_term(f: PlayFacts, kind: CombinationKind) -> int {
    if kind == CombinationKind::Ordinary(OrdinaryKind::FullHouse) && f.level_pair {
        -pts(99999)
    } else {
        0int
    }
}

fn level_pair_points(f: PlayFacts, kind: CombinationKind) -> (x: i128)
    ensures
        x == level_pair_term(f, kind),
        within(x as int),
{
    reveal(level_pair_term);
    if kind == CombinationKind::Ordinary(OrdinaryKind::FullHouse) && f.level_pair {
        -points(99999)
    } else {
        0i128
    }
}

/// Four cards of the level at once.
#[verifier::opaque]
pub open spec fn four_level_term(f: PlayFacts) -> int {
    if f.count < f.held && f.level_cards >= 4 {
        -pts(99999)
    } else {
        0int
    }
}

fn four_level_points(f: PlayFacts) -> (x: i128)
    ensures
        x == four_level_term(f),
        within(x as int),
{
    reveal(four_level_term);
    if f.count < f.held && f.level_cards >= 4 {
        -points(99999)
    } else {
        0i128
    }
}

/// Small bombs before large ones.
#[verifier::opaque]
pub open spec fn bomb_order_term(kind: CombinationKind) -> int {
    if (kind == CombinationKind::Bomb(BombKind::SameRank { n: 5 })) {
        -pts(5)
    } else if is_large_bomb(kind) {
        -pts(15)
    } else {
        0int
    }
}

fn bomb_order_points(kind: CombinationKind) -> (x: i128)
    ensures
        x == bomb_order_term(kind),
        within(x as int),
{
    reveal(bomb_order_term);
    if (kind == CombinationKind::Bomb(BombKind::SameRank { n: 5 })) {
        -points(5)
    } else if large_bomb(kind) {
        -points(15)
    } else {
        0i128
    }
}

/// Nothing left but small single cards.
#[verifier::opaque]
pub open spec fn small_left_term(f: PlayFacts, p: AdvancedBotParams) -> int {
    if f.count < f.held {
        -(f.small_left * p.avoid_small_singles_each)
    } else {
        0int
    }
}

fn small_left_points(f: PlayFacts, p: AdvancedBotParams) -> (x: i128)
    requires
        p.ok(),
    ensures
        x == small_left_term(f, p),
        within(x as int),
{
    reveal(small_left_term);
    if f.count < f.held {
        -times(f.small_left, p.avoid_small_singles_each)
    } else {
        0i128
    }
}

/// Leading a joker or a card of the level alone from a large hand.
#[verifier::opaque]
pub open spec fn lead_bare_single_term(f: PlayFacts, kind: CombinationKind) -> int {
    if f.held > 6 && kind == CombinationKind::Ordinary(OrdinaryKind::Single) && (f.first_joker || f.first_level) {
        -pts(99999)
    } else {
        0int
    }
}

fn lead_bare_single_points(f: PlayFacts, kind: CombinationKind) -> (x: i128)
    ensures
        x == lead_bare_single_term(f, kind),
        within(x as int),
{
    reveal(lead_bare_single_term);
    if f.held > 6 && kind == CombinationKind::Ordinary(OrdinaryKind::Single) && (f.first_joker || f.first_level) {
        -points(99999)
    } else {
        0i128
    }
}

/// Leading a bomb.
#[verifier::opaque]
pub open spec fn lead_bomb_term(f: PlayFacts, kind: CombinationKind) -> int {
    if is_bomb_kind(kind) {
        (if f.bombs < 2 {
            -pts(30)
        } else {
            -pts(40)
        }) + (if f.count >= f.held {
            pts(30)
        } else {
            0int
        }) + (if (kind == CombinationKind::Bomb(BombKind::SameRank { n: 4 })) {
            pts(10)
        } else if kind == CombinationKind::Bomb(BombKind::StraightFlush) {
            -pts(15)
        } else if kind == CombinationKind::Bomb(BombKind::FourJoker) {
            -pts(30)
        } else {
            0int
        })
    } else {
        0int
    }
}

fn lead_bomb_points(f: PlayFacts, kind: CombinationKind) -> (x: i128)
    ensures
        x == lead_bomb_term(f, kind),
        within(x as int),
{
    reveal(lead_bomb_term);
    if bomb_kind(kind) {
        (if f.bombs < 2 {
            -points(30)
        } else {
            -points(40)
        }) + (if f.count >= f.held {
            points(30)
        } else {
            0i128
        }) + (if (kind == CombinationKind::Bomb(BombKind::SameRank { n: 4 })) {
            points(10)
        } else if kind == CombinationKind::Bomb(BombKind::StraightFlush) {
            -points(15)
        } else if kind == CombinationKind::Bomb(BombKind::FourJoker) {
            -points(30)
        } else {
            0i128
        })
    } else {
        0i128
    }
}

/// A partner who is about to run out of cards.
#[verifier::opaque]
pub open spec fn lead_feed_term(f: PlayFacts, p: AdvancedBotParams, kind: CombinationKind, primary: u8) -> int {
    if f.partner_left == 1 {
        if kind == CombinationKind::Ordinary(OrdinaryKind::Single) {
            pts(400) - pts(primary as int * 8)
        } else if !is_bomb_kind(kind) {
            -pts(20)
        } else {
            0int
        }
    } else if f.partner_left == 2 {
        if kind == CombinationKind::Ordinary(OrdinaryKind::Pair) {
            pts(400) - pts(primary as int * 8)
        } else {
            0int
        }
    } else if f.partner_left == 3 {
        if kind == CombinationKind::Ordinary(OrdinaryKind::Triple) {
            pts(40)
        } else {
            0int
        }
    } else if f.partner_left <= 6 && (kind == CombinationKind::Ordinary(OrdinaryKind::Pair) || is_run_kind(kind) || kind == CombinationKind::Ordinary(OrdinaryKind::FullHouse)) {
        p.teammate_combo_bonus as int
    } else {
        0int
    }
}

fn lead_feed_points(f: PlayFacts, p: AdvancedBotParams, kind: CombinationKind, primary: u8) -> (x: i128)
    requires
        p.ok(),
    ensures
        x == lead_feed_term(f, p, kind, primary),
        within(x as int),
{
    reveal(lead_feed_term);
    if f.partner_left == 1 {
        if kind == CombinationKind::Ordinary(OrdinaryKind::Single) {
            points(400) - points(primary as i64 * 8)
        } else if !bomb_kind(kind) {
            -points(20)
        } else {
            0i128
        }
    } else if f.partner_left == 2 {
        if kind == CombinationKind::Ordinary(OrdinaryKind::Pair) {
            points(400) - points(primary as i64 * 8)
        } else {
            0i128
        }
    } else if f.partner_left == 3 {
        if kind == CombinationKind::Ordinary(OrdinaryKind::Triple) {
            points(40)
        } else {
            0i128
        }
    } else if f.partner_left <= 6 && (kind == CombinationKind::Ordinary(OrdinaryKind::Pair) || run_kind(kind) || kind == CombinationKind::Ordinary(OrdinaryKind::FullHouse)) {
        p.teammate_combo_bonus as i128
    } else {
        0i128
    }
}

/// An opponent who is about to run out of cards.
#[verifier::opaque]
pub open spec fn lead_block_term(f: PlayFacts, p: AdvancedBotParams, kind: CombinationKind, primary: u8) -> int {
    if f.min_opponent == 1 {
        (if kind == CombinationKind::Ordinary(OrdinaryKind::Single) {
            pts(primary as int * 8) - pts(400)
        } else if kind == CombinationKind::Ordinary(OrdinaryKind::Pair) {
            pts(120)
        } else {
            0int
        }) + (if !is_bomb_kind(kind) {
            pts(10)
        } else {
            0int
        })
    } else if f.min_opponent == 2 {
        if kind == CombinationKind::Ordinary(OrdinaryKind::Pair) {
            pts(primary as int * 8) - pts(400)
        } else if kind == CombinationKind::Ordinary(OrdinaryKind::Single) {
            pts(60)
        } else {
            0int
        }
    } else if f.min_opponent <= 6 {
        if kind == CombinationKind::Ordinary(OrdinaryKind::Single) {
            if primary <= 10 {
                -pts(30)
            } else {
                p.block_enemy_bonus as int
            }
        } else if kind == CombinationKind::Ordinary(OrdinaryKind::Pair) {
            if primary <= 10 {
                -pts(15)
            } else {
                p.block_enemy_bonus as int
            }
        } else if is_run_kind(kind) || kind == CombinationKind::Ordinary(OrdinaryKind::FullHouse) {
            p.combo_shape_bonus as int
        } else {
            0int
        }
    } else {
        0int
    }
}

fn lead_block_points(f: PlayFacts, p: AdvancedBotParams, kind: CombinationKind, primary: u8) -> (x: i128)
    requires
        p.ok(),
    ensures
        x == lead_block_term(f, p, kind, primary),
        within(x as int),
{
    reveal(lead_block_term);
    if f.min_opponent == 1 {
        (if kind == CombinationKind::Ordinary(OrdinaryKind::Single) {
            points(primary as i64 * 8) - points(400)
        } else if kind == CombinationKind::Ordinary(OrdinaryKind::Pair) {
            points(120)
        } else {
            0i128
        }) + (if !bomb_kind(kind) {
            points(10)
        } else {
            0i128
        })
    } else if f.min_opponent == 2 {
        if kind == CombinationKind::Ordinary(OrdinaryKind::Pair) {
            points(primary as i64 * 8) - points(400)
        } else if kind == CombinationKind::Ordinary(OrdinaryKind::Single) {
            points(60)
        } else {
            0i128
        }
    } else if f.min_opponent <= 6 {
        if kind == CombinationKind::Ordinary(OrdinaryKind::Single) {
            if primary <= 10 {
                -points(30)
            } else {
                p.block_enemy_bonus as i128
            }
        } else if kind == CombinationKind::Ordinary(OrdinaryKind::Pair) {
            if primary <= 10 {
                -points(15)
            } else {
                p.block_enemy_bonus as i128
            }
        } else if run_kind(kind) || kind == CombinationKind::Ordinary(OrdinaryKind::FullHouse) {
            p.combo_shape_bonus as i128
        } else {
            0i128
        }
    } else {
        0i128
    }
}

/// More cards and lower ones first.
#[verifier::opaque]
pub open spec fn lead_shape_term(f: PlayFacts, p: AdvancedBotParams, kind: CombinationKind, primary: u8) -> int {
    if f.endgame && !is_bomb_kind(kind) {
        (f.count * p.lead_len_step_endgame) - (primary * p.lead_primary_step_endgame)
    } else {
        (f.count * p.lead_len_step) - (primary * p.lead_primary_step)
    }
}

fn lead_shape_points(f: PlayFacts, p: AdvancedBotParams, kind: CombinationKind, primary: u8) -> (x: i128)
    requires
        p.ok(),
    ensures
        x == lead_shape_term(f, p, kind, primary),
        within(x as int),
{
    reveal(lead_shape_term);
    if f.endgame && !bomb_kind(kind) {
        times(f.count, p.lead_len_step_endgame) - times(primary as usize, p.lead_primary_step_endgame)
    } else {
        times(f.count, p.lead_len_step) - times(primary as usize, p.lead_primary_step)
    }
}

/// Getting rid of single cards in the endgame.
#[verifier::opaque]
pub open spec fn lead_singles_term(f: PlayFacts, p: AdvancedBotParams, kind: CombinationKind) -> int {
    if f.held <= 6 && !is_bomb_kind(kind) {
        (f.lone * p.endgame_single_removal) + (f.small_lone * p.endgame_small_single_removal) + (if f.hand_lone {
            -pts(100)
        } else {
            0int
        }) + (if f.hand_small_lone {
            -pts(150)
        } else {
            0int
        })
    } else {
        0int
    }
}

fn lead_singles_points(f: PlayFacts, p: AdvancedBotParams, kind: CombinationKind) -> (x: i128)
    requires
        p.ok(),
    ensures
        x == lead_singles_term(f, p, kind),
        within(x as int),
{
    reveal(lead_singles_term);
    if f.held <= 6 && !bomb_kind(kind) {
        times(f.lone, p.endgame_single_removal) + times(f.small_lone, p.endgame_small_single_removal) + (if f.hand_lone {
            -points(100)
        } else {
            0i128
        }) + (if f.hand_small_lone {
            -points(150)
        } else {
            0i128
        })
    } else {
        0i128
    }
}

/// Single cards that line up for a straight.
#[verifier::opaque]
pub open spec fn lead_build_term(f: PlayFacts, p: AdvancedBotParams, kind: CombinationKind) -> int {
    if f.builds_straight && !is_bomb_kind(kind) {
        p.straight_build_bonus as int
    } else {
        0int
    }
}

fn lead_build_points(f: PlayFacts, p: AdvancedBotParams, kind: CombinationKind) -> (x: i128)
    requires
        p.ok(),
    ensures
        x == lead_build_term(f, p, kind),
        within(x as int),
{
    reveal(lead_build_term);
    if f.builds_straight && !bomb_kind(kind) {
        p.straight_build_bonus as i128
    } else {
        0i128
    }
}

/// A large share of single cards left. A wild card in a straight is well used all the same.
#[verifier::opaque]
pub open spec fn lead_scatter_term(f: PlayFacts, p: AdvancedBotParams, kind: CombinationKind) -> int {
    if f.count < f.held && f.held - f.count > 1 && !is_bomb_kind(kind) && !(kind == CombinationKind::Ordinary(OrdinaryKind::Straight) && f.wilds > 0) {
        if 5 * (f.singles_after) > 3 * (f.held - f.count) {
            -pts(150)
        } else if 5 * (f.singles_after) > 2 * (f.held - f.count) {
            -(p.many_singles_penalty as int)
        } else if 5 * (f.singles_after) > 1 * (f.held - f.count) {
            -pts(20)
        } else {
            0int
        }
    } else {
        0int
    }
}

fn lead_scatter_points(f: PlayFacts, p: AdvancedBotParams, kind: CombinationKind) -> (x: i128)
    requires
        p.ok(),
    ensures
        x == lead_scatter_term(f, p, kind),
        within(x as int),
{
    reveal(lead_scatter_term);
    if f.count < f.held && f.held - f.count > 1 && !bomb_kind(kind) && !(kind == CombinationKind::Ordinary(OrdinaryKind::Straight) && f.wilds > 0) {
        if share(f.singles_after, 5) > share(f.held - f.count, 3) {
            -points(150)
        } else if share(f.singles_after, 5) > share(f.held - f.count, 2) {
            -(p.many_singles_penalty as i128)
        } else if share(f.singles_after, 5) > share(f.held - f.count, 1) {
            -points(20)
        } else {
            0i128
        }
    } else {
        0i128
    }
}

/// Single and small cards first.
#[verifier::opaque]
pub open spec fn lead_small_term(p: AdvancedBotParams, kind: CombinationKind, primary: u8) -> int {
    if is_bomb_kind(kind) {
        0int
    } else {
        (if kind == CombinationKind::Ordinary(OrdinaryKind::Single) {
            p.single_lead_bonus as int + (if primary <= 10 {
                p.small_single_lead_bonus as int
            } else {
                0int
            })
        } else {
            0int
        }) + (if primary > 10 {
            -pts(30)
        } else {
            p.small_card_lead_bonus as int
        })
    }
}

fn lead_small_points(p: AdvancedBotParams, kind: CombinationKind, primary: u8) -> (x: i128)
    requires
        p.ok(),
    ensures
        x == lead_small_term(p, kind, primary),
        within(x as int),
{
    reveal(lead_small_term);
    if bomb_kind(kind) {
        0i128
    } else {
        (if kind == CombinationKind::Ordinary(OrdinaryKind::Single) {
            p.single_lead_bonus as i128 + (if primary <= 10 {
                p.small_single_lead_bonus as i128
            } else {
                0i128
            })
        } else {
            0i128
        }) + (if primary > 10 {
            -points(30)
        } else {
            p.small_card_lead_bonus as i128
        })
    }
}

/// Good uses of a wild card.
#[verifier::opaque]
pub open spec fn lead_wild_term(f: PlayFacts, p: AdvancedBotParams, kind: CombinationKind) -> int {
    if f.wilds == 0 {
        0int
    } else if is_bomb_kind(kind) {
        p.wild_bomb_bonus as int + (if kind == CombinationKind::Bomb(BombKind::StraightFlush) && f.count < f.held {
            (if f.leaves_straight {
                pts(450) + p.keep_bomb_bonus as int
            } else {
                0int
            }) + (if f.leaves_singles {
                -pts(250)
            } else {
                0int
            })
        } else {
            0int
        })
    } else if is_run_kind(kind) {
        p.wild_run_bonus as int
    } else if kind == CombinationKind::Ordinary(OrdinaryKind::FullHouse) && f.wild_triple && f.count < f.held {
        if f.held <= 6 {
            -pts(15)
        } else {
            -pts(300)
        }
    } else {
        0int
    }
}

fn lead_wild_points(f: PlayFacts, p: AdvancedBotParams, kind: CombinationKind) -> (x: i128)
    requires
        p.ok(),
    ensures
        x == lead_wild_term(f, p, kind),
        within(x as int),
{
    reveal(lead_wild_term);
    if f.wilds == 0 {
        0i128
    } else if bomb_kind(kind) {
        p.wild_bomb_bonus as i128 + (if kind == CombinationKind::Bomb(BombKind::StraightFlush) && f.count < f.held {
            (if f.leaves_straight {
                points(450) + p.keep_bomb_bonus as i128
            } else {
                0i128
            }) + (if f.leaves_singles {
                -points(250)
            } else {
                0i128
            })
        } else {
            0i128
        })
    } else if run_kind(kind) {
        p.wild_run_bonus as i128
    } else if kind == CombinationKind::Ordinary(OrdinaryKind::FullHouse) && f.wild_triple && f.count < f.held {
        if f.held <= 6 {
            -points(15)
        } else {
            -points(300)
        }
    } else {
        0i128
    }
}

/// Cards of the level and jokers are kept.
#[verifier::opaque]
pub open spec fn lead_high_term(f: PlayFacts) -> int {
    if f.count < f.held && (f.level_cards > 0 || f.has_joker) {
        -pts(40)
    } else {
        0int
    }
}

fn lead_high_points(f: PlayFacts) -> (x: i128)
    ensures
        x == lead_high_term(f),
        within(x as int),
{
    reveal(lead_high_term);
    if f.count < f.held && (f.level_cards > 0 || f.has_joker) {
        -points(40)
    } else {
        0i128
    }
}

/// High cards are kept, the higher the more. A wild card in a straight is well used all the same.
#[verifier::opaque]
pub open spec fn lead_top_term(f: PlayFacts, kind: CombinationKind) -> int {
    if f.count < f.held && f.highest >= 11 && !(kind == CombinationKind::Ordinary(OrdinaryKind::Straight) && f.wilds > 0) {
        -pts((f.highest as int - 10) * 18)
    } else {
        0int
    }
}

fn lead_top_points(f: PlayFacts, kind: CombinationKind) -> (x: i128)
    ensures
        x == lead_top_term(f, kind),
        within(x as int),
{
    reveal(lead_top_term);
    if f.count < f.held && f.highest >= 11 && !(kind == CombinationKind::Ordinary(OrdinaryKind::Straight) && f.wilds > 0) {
        -points((f.highest as i64 - 10) * 18)
    } else {
        0i128
    }
}

/// Leading for a partner who is out.
#[verifier::opaque]
pub open spec fn lead_partner_out_term(f: PlayFacts, p: AdvancedBotParams) -> int {
    if f.partner_left == 0 {
        p.partner_feng_first_bonus as int
    } else {
        0int
    }
}

fn lead_partner_out_points(f: PlayFacts, p: AdvancedBotParams) -> (x: i128)
    requires
        p.ok(),
    ensures
        x == lead_partner_out_term(f, p),
        within(x as int),
{
    reveal(lead_partner_out_term);
    if f.partner_left == 0 {
        p.partner_feng_first_bonus as i128
    } else {
        0i128
    }
}

/// The last bomb is kept; before the endgame, one that leaves a plain bomb is not the last.
#[verifier::opaque]
pub open spec fn lead_last_bomb_term(f: PlayFacts, kind: CombinationKind) -> int {
    if is_bomb_kind(kind) && f.count < f.held && f.min_opponent > 6 && f.held - f.count > 2 && ((f.endgame && f.bombs == 1) || (!f.endgame && f.bombs < 2 && !f.plain_bomb_stays)) {
        -pts(99999)
    } else {
        0int
    }
}

fn lead_last_bomb_points(f: PlayFacts, kind: CombinationKind) -> (x: i128)
    ensures
        x == lead_last_bomb_term(f, kind),
        within(x as int),
{
    reveal(lead_last_bomb_term);
    if bomb_kind(kind) && f.count < f.held && f.min_opponent > 6 && f.held - f.count > 2 && ((f.endgame && f.bombs == 1) || (!f.endgame && f.bombs < 2 && !f.plain_bomb_stays)) {
        -points(99999)
    } else {
        0i128
    }
}

/// Leading a bomb while other cards are left.
#[verifier::opaque]
pub open spec fn lead_empty_bomb_term(f: PlayFacts, p: AdvancedBotParams, kind: CombinationKind) -> int {
    if is_bomb_kind(kind) && f.count < f.held && !f.only_bombs_left {
        -(p.empty_lead_bomb_penalty as int)
    } else {
        0int
    }
}

fn lead_empty_bomb_points(f: PlayFacts, p: AdvancedBotParams, kind: CombinationKind) -> (x: i128)
    requires
        p.ok(),
    ensures
        x == lead_empty_bomb_term(f, p, kind),
        within(x as int),
{
    reveal(lead_empty_bomb_term);
    if bomb_kind(kind) && f.count < f.held && !f.only_bombs_left {
        -(p.empty_lead_bomb_penalty as i128)
    } else {
        0i128
    }
}

/// Emptying the hand.
#[verifier::opaque]
pub open spec fn lead_clear_term(f: PlayFacts) -> int {
    if f.count == f.held {
        pts(10000)
    } else {
        0int
    }
}

fn lead_clear_points(f: PlayFacts) -> (x: i128)
    ensures
        x == lead_clear_term(f),
        within(x as int),
{
    reveal(lead_clear_term);
    if f.count == f.held {
        points(10000)
    } else {
        0i128
    }
}

/// Following with a bomb: small ones first, and not the last one. On a bomb, one with a wild card
/// counts too among those that stay.
#[verifier::opaque]
pub open spec fn follow_bomb_term(f: PlayFacts, p: AdvancedBotParams, kind: CombinationKind, top: CombinationKind) -> int {
    if is_bomb_kind(kind) {
        (if (kind == CombinationKind::Bomb(BombKind::SameRank { n: 4 })) {
            pts(5)
        } else if (kind == CombinationKind::Bomb(BombKind::SameRank { n: 5 })) {
            -pts(3)
        } else if kind == CombinationKind::Bomb(BombKind::StraightFlush) {
            -pts(12)
        } else if kind == CombinationKind::Bomb(BombKind::FourJoker) {
            -pts(20)
        } else {
            -pts(6)
        }) + (if f.count >= f.held {
            p.last_play_clear_bonus as int
        } else if f.min_opponent <= 6 {
            p.intercept_sprint_bonus as int
        } else if f.bombs >= 3 && !f.endgame {
            -(p.bomb_keep_many as int)
        } else {
            0int
        }) + (if f.count < f.held && f.held - f.count > 2 && f.min_opponent > 6 && ((!f.endgame && f.bombs < 2 && !(is_bomb_kind(top) && f.bomb_stays)) || (f.endgame && f.bombs == 1)) {
            -pts(99999)
        } else {
            0int
        })
    } else {
        0int
    }
}

fn follow_bomb_points(f: PlayFacts, p: AdvancedBotParams, kind: CombinationKind, top: CombinationKind) -> (x: i128)
    requires
        p.ok(),
    ensures
        x == follow_bomb_term(f, p, kind, top),
        within(x as int),
{
    reveal(follow_bomb_term);
    if bomb_kind(kind) {
        (if (kind == CombinationKind::Bomb(BombKind::SameRank { n: 4 })) {
            points(5)
        } else if (kind == CombinationKind::Bomb(BombKind::SameRank { n: 5 })) {
            -points(3)
        } else if kind == CombinationKind::Bomb(BombKind::StraightFlush) {
            -points(12)
        } else if kind == CombinationKind::Bomb(BombKind::FourJoker) {
            -points(20)
        } else {
            -points(6)
        }) + (if f.count >= f.held {
            p.last_play_clear_bonus as i128
        } else if f.min_opponent <= 6 {
            p.intercept_sprint_bonus as i128
        } else if f.bombs >= 3 && !f.endgame {
            -(p.bomb_keep_many as i128)
        } else {
            0i128
        }) + (if f.count < f.held && f.held - f.count > 2 && f.min_opponent > 6 && ((!f.endgame && f.bombs < 2 && !(bomb_kind(top) && f.bomb_stays)) || (f.endgame && f.bombs == 1)) {
            -points(99999)
        } else {
            0i128
        })
    } else {
        0i128
    }
}

/// A bomb on a single or a pair.
#[verifier::opaque]
pub open spec fn follow_over_term(f: PlayFacts, p: AdvancedBotParams, kind: CombinationKind, top: CombinationKind) -> int {
    if is_bomb_kind(kind) && f.count < f.held && f.min_opponent > 6 && !f.endgame {
        if top == CombinationKind::Ordinary(OrdinaryKind::Single) {
            -(p.bomb_over_single as int)
        } else if top == CombinationKind::Ordinary(OrdinaryKind::Pair) {
            -(p.bomb_over_pair as int)
        } else {
            0int
        }
    } else {
        0int
    }
}

fn follow_over_points(f: PlayFacts, p: AdvancedBotParams, kind: CombinationKind, top: CombinationKind) -> (x: i128)
    requires
        p.ok(),
    ensures
        x == follow_over_term(f, p, kind, top),
        within(x as int),
{
    reveal(follow_over_term);
    if bomb_kind(kind) && f.count < f.held && f.min_opponent > 6 && !f.endgame {
        if top == CombinationKind::Ordinary(OrdinaryKind::Single) {
            -(p.bomb_over_single as i128)
        } else if top == CombinationKind::Ordinary(OrdinaryKind::Pair) {
            -(p.bomb_over_pair as i128)
        } else {
            0i128
        }
    } else {
        0i128
    }
}

/// Good uses of a wild card, but not to answer a bomb.
#[verifier::opaque]
pub open spec fn follow_wild_term(f: PlayFacts, p: AdvancedBotParams, kind: CombinationKind, top: CombinationKind) -> int {
    if f.wilds == 0 {
        0int
    } else if is_bomb_kind(kind) {
        if is_bomb_kind(top) && !f.endgame && f.min_opponent > 6 && f.count < f.held {
            0int
        } else {
            p.wild_bomb_bonus as int + (if kind == CombinationKind::Bomb(BombKind::StraightFlush) && f.count < f.held {
                (if f.leaves_straight {
                    pts(450)
                } else {
                    0int
                }) + (if f.leaves_singles {
                    -pts(250)
                } else {
                    0int
                })
            } else {
                0int
            })
        }
    } else if is_run_kind(kind) {
        p.wild_run_bonus as int
    } else if kind == CombinationKind::Ordinary(OrdinaryKind::FullHouse) && f.wild_triple && f.count < f.held {
        if f.endgame {
            -pts(15)
        } else {
            -pts(300)
        }
    } else {
        0int
    }
}

fn follow_wild_points(f: PlayFacts, p: AdvancedBotParams, kind: CombinationKind, top: CombinationKind) -> (x: i128)
    requires
        p.ok(),
    ensures
        x == follow_wild_term(f, p, kind, top),
        within(x as int),
{
    reveal(follow_wild_term);
    if f.wilds == 0 {
        0i128
    } else if bomb_kind(kind) {
        if bomb_kind(top) && !f.endgame && f.min_opponent > 6 && f.count < f.held {
            0i128
        } else {
            p.wild_bomb_bonus as i128 + (if kind == CombinationKind::Bomb(BombKind::StraightFlush) && f.count < f.held {
                (if f.leaves_straight {
                    points(450)
                } else {
                    0i128
                }) + (if f.leaves_singles {
                    -points(250)
                } else {
                    0i128
                })
            } else {
                0i128
            })
        }
    } else if run_kind(kind) {
        p.wild_run_bonus as i128
    } else if kind == CombinationKind::Ordinary(OrdinaryKind::FullHouse) && f.wild_triple && f.count < f.held {
        if f.endgame {
            -points(15)
        } else {
            -points(300)
        }
    } else {
        0i128
    }
}

/// No higher than needed.
#[verifier::opaque]
pub open spec fn follow_margin_term(primary: u8, top: u8) -> int {
    -pts((primary as int - top as int) * 2)
}

fn follow_margin_points(primary: u8, top: u8) -> (x: i128)
    ensures
        x == follow_margin_term(primary, top),
        within(x as int),
{
    reveal(follow_margin_term);
    -points((primary as i64 - top as i64) * 2)
}

/// Fewer cards, except for a bomb in the endgame.
#[verifier::opaque]
pub open spec fn follow_count_term(f: PlayFacts, kind: CombinationKind) -> int {
    if !f.endgame || !is_bomb_kind(kind) {
        -(f.count * 300_000_000)
    } else {
        0int
    }
}

fn follow_count_points(f: PlayFacts, kind: CombinationKind) -> (x: i128)
    ensures
        x == follow_count_term(f, kind),
        within(x as int),
{
    reveal(follow_count_term);
    if !f.endgame || !bomb_kind(kind) {
        -times(f.count, 300_000_000)
    } else {
        0i128
    }
}

/// Getting rid of cards in the endgame.
#[verifier::opaque]
pub open spec fn follow_endgame_term(f: PlayFacts, p: AdvancedBotParams) -> int {
    if f.endgame {
        (10 * p.endgame_clear_hand_bias)
    } else {
        0int
    }
}

fn follow_endgame_points(f: PlayFacts, p: AdvancedBotParams) -> (x: i128)
    requires
        p.ok(),
    ensures
        x == follow_endgame_term(f, p),
        within(x as int),
{
    reveal(follow_endgame_term);
    if f.endgame {
        times(10, p.endgame_clear_hand_bias)
    } else {
        0i128
    }
}

/// A bomb that leaves single cards.
#[verifier::opaque]
pub open spec fn follow_scatter_term(f: PlayFacts, kind: CombinationKind) -> int {
    if is_bomb_kind(kind) && f.count < f.held && f.held - f.count > 1 && 5 * (f.singles_after) > 3 * (f.held - f.count) {
        -pts(30)
    } else {
        0int
    }
}

fn follow_scatter_points(f: PlayFacts, kind: CombinationKind) -> (x: i128)
    ensures
        x == follow_scatter_term(f, kind),
        within(x as int),
{
    reveal(follow_scatter_term);
    if bomb_kind(kind) && f.count < f.held && f.held - f.count > 1 && share(f.singles_after, 5) > share(f.held - f.count, 3) {
        -points(30)
    } else {
        0i128
    }
}

/// Taking over from the partner, and a partner with few cards.
#[verifier::opaque]
pub open spec fn follow_team_term(f: PlayFacts, p: AdvancedBotParams, kind: CombinationKind, partner_led: bool) -> int {
    if is_bomb_kind(kind) {
        0int
    } else {
        (if partner_led {
            p.partner_feng_bonus as int
        } else {
            0int
        }) + (if f.partner_left == 1 {
            pts(10)
        } else if f.partner_left <= 6 {
            pts(5)
        } else {
            0int
        })
    }
}

fn follow_team_points(f: PlayFacts, p: AdvancedBotParams, kind: CombinationKind, partner_led: bool) -> (x: i128)
    requires
        p.ok(),
    ensures
        x == follow_team_term(f, p, kind, partner_led),
        within(x as int),
{
    reveal(follow_team_term);
    if bomb_kind(kind) {
        0i128
    } else {
        (if partner_led {
            p.partner_feng_bonus as i128
        } else {
            0i128
        }) + (if f.partner_left == 1 {
            points(10)
        } else if f.partner_left <= 6 {
            points(5)
        } else {
            0i128
        })
    }
}

/// Getting rid of single cards in the endgame.
#[verifier::opaque]
pub open spec fn follow_singles_term(f: PlayFacts, p: AdvancedBotParams, kind: CombinationKind) -> int {
    if f.held <= 6 && !is_bomb_kind(kind) {
        (f.lone * p.endgame_single_removal) + (f.small_lone * p.endgame_small_single_removal)
    } else {
        0int
    }
}

fn follow_singles_points(f: PlayFacts, p: AdvancedBotParams, kind: CombinationKind) -> (x: i128)
    requires
        p.ok(),
    ensures
        x == follow_singles_term(f, p, kind),
        within(x as int),
{
    reveal(follow_singles_term);
    if f.held <= 6 && !bomb_kind(kind) {
        times(f.lone, p.endgame_single_removal) + times(f.small_lone, p.endgame_small_single_removal)
    } else {
        0i128
    }
}

/// An opponent who is about to run out of cards.
#[verifier::opaque]
pub open spec fn follow_block_term(f: PlayFacts, p: AdvancedBotParams, kind: CombinationKind, primary: u8, top: CombinationKind) -> int {
    if f.min_opponent > 6 {
        0int
    } else if is_bomb_kind(kind) {
        pts(10)
    } else if top == CombinationKind::Ordinary(OrdinaryKind::Single) || top == CombinationKind::Ordinary(OrdinaryKind::Pair) {
        if primary > 10 {
            p.block_enemy_bonus as int
        } else {
            0int
        }
    } else {
        pts(10)
    }
}

fn follow_block_points(f: PlayFacts, p: AdvancedBotParams, kind: CombinationKind, primary: u8, top: CombinationKind) -> (x: i128)
    requires
        p.ok(),
    ensures
        x == follow_block_term(f, p, kind, primary, top),
        within(x as int),
{
    reveal(follow_block_term);
    if f.min_opponent > 6 {
        0i128
    } else if bomb_kind(kind) {
        points(10)
    } else if top == CombinationKind::Ordinary(OrdinaryKind::Single) || top == CombinationKind::Ordinary(OrdinaryKind::Pair) {
        if primary > 10 {
            p.block_enemy_bonus as i128
        } else {
            0i128
        }
    } else {
        points(10)
    }
}

/// A pair of wild cards on a pair.
#[verifier::opaque]
pub open spec fn follow_dual_pair_term(f: PlayFacts, kind: CombinationKind) -> int {
    if f.count < f.held && f.wilds >= 2 && kind == CombinationKind::Ordinary(OrdinaryKind::Pair) && f.min_opponent > 6 {
        -pts(99999)
    } else {
        0int
    }
}

fn follow_dual_pair_points(f: PlayFacts, kind: CombinationKind) -> (x: i128)
    ensures
        x == follow_dual_pair_term(f, kind),
        within(x as int),
{
    reveal(follow_dual_pair_term);
    if f.count < f.held && f.wilds >= 2 && kind == CombinationKind::Ordinary(OrdinaryKind::Pair) && f.min_opponent > 6 {
        -points(99999)
    } else {
        0i128
    }
}

/// Taking the lead for a partner who is out.
#[verifier::opaque]
pub open spec fn follow_partner_out_term(f: PlayFacts, p: AdvancedBotParams) -> int {
    if f.count < f.held && f.partner_left == 0 {
        p.partner_feng_lead_bonus as int
    } else {
        0int
    }
}

fn follow_partner_out_points(f: PlayFacts, p: AdvancedBotParams) -> (x: i128)
    requires
        p.ok(),
    ensures
        x == follow_partner_out_term(f, p),
        within(x as int),
{
    reveal(follow_partner_out_term);
    if f.count < f.held && f.partner_left == 0 {
        p.partner_feng_lead_bonus as i128
    } else {
        0i128
    }
}

/// Emptying the hand.
#[verifier::opaque]
pub open spec fn follow_clear_term(f: PlayFacts) -> int {
    if f.count >= f.held {
        pts(10000)
    } else {
        0int
    }
}

fn follow_clear_points(f: PlayFacts) -> (x: i128)
    ensures
        x == follow_clear_term(f),
        within(x as int),
{
    reveal(follow_clear_term);
    if f.count >= f.held {
        points(10000)
    } else {
        0i128
    }
}

/// The points of a lead: fifty to begin with, and every term.
pub open spec fn lead_points(f: PlayFacts, p: AdvancedBotParams, c: Combination) -> int {
    pts(50)
        + split_term(f, p)
        + lead_bare_single_term(f, c.kind)
        + lead_bomb_term(f, c.kind)
        + level_bomb_term(f, c.kind)
        + keep_bomb_term(f, p, c.kind)
        + lead_feed_term(f, p, c.kind, c.primary)
        + lead_block_term(f, p, c.kind, c.primary)
        + lead_shape_term(f, p, c.kind, c.primary)
        + lead_singles_term(f, p, c.kind)
        + lead_build_term(f, p, c.kind)
        + lead_scatter_term(f, p, c.kind)
        + lead_small_term(p, c.kind, c.primary)
        + lead_wild_term(f, p, c.kind)
        + upgraded_term(f, p)
        + wild_on_level_term(f, p, c.kind)
        + level_face_term(f, p, c.kind)
        + wild_waste_term(f, p, c.kind, false)
        + broken_bomb_term(f, c.kind)
        + dual_wild_term(f, p, c.kind)
        + conserve_term(f, c.kind)
        + strand_term(f)
        + level_pair_term(f, c.kind)
        + four_level_term(f)
        + bomb_order_term(c.kind)
        + lead_high_term(f)
        + lead_top_term(f, c.kind)
        + lead_partner_out_term(f, p)
        + lead_last_bomb_term(f, c.kind)
        + lead_empty_bomb_term(f, p, c.kind)
        + small_left_term(f, p)
        + lead_clear_term(f)
}

/// The points of a lead for going down in few tricks: a penalty for each that is left, and a
/// bonus for each single card that goes.
pub open spec fn plan_points(f: PlayFacts, p: AdvancedBotParams, tricks: nat) -> int {
    f.lone * p.solver_junk_bonus - tricks * p.solver_trick_penalty
}

/// The points of an answer to `top`: a hundred to begin with, and every term.
pub open spec fn follow_points(
    f: PlayFacts,
    p: AdvancedBotParams,
    c: Combination,
    top: Combination,
    partner_led: bool,
    rescue: bool,
) -> int {
    pts(100)
        + split_term(f, p)
        + follow_bomb_term(f, p, c.kind, top.kind)
        + level_bomb_term(f, c.kind)
        + keep_bomb_term(f, p, c.kind)
        + follow_over_term(f, p, c.kind, top.kind)
        + follow_wild_term(f, p, c.kind, top.kind)
        + upgraded_term(f, p)
        + follow_margin_term(c.primary, top.primary)
        + follow_count_term(f, c.kind)
        + follow_endgame_term(f, p)
        + follow_scatter_term(f, c.kind)
        + follow_team_term(f, p, c.kind, partner_led)
        + follow_singles_term(f, p, c.kind)
        + follow_block_term(f, p, c.kind, c.primary, top.kind)
        + wild_on_level_term(f, p, c.kind)
        + level_face_term(f, p, c.kind)
        + wild_waste_term(f, p, c.kind, rescue)
        + broken_bomb_term(f, c.kind)
        + follow_dual_pair_term(f, c.kind)
        + dual_wild_term(f, p, c.kind)
        + conserve_term(f, c.kind)
        + strand_term(f)
        + level_pair_term(f, c.kind)
        + four_level_term(f)
        + bomb_order_term(c.kind)
        + follow_partner_out_term(f, p)
        + small_left_term(f, p)
        + follow_clear_term(f)
}

/// What a total can amount to.
pub open spec fn within_total(x: int) -> bool {
    -40_000_000_000_000_000_000_000_000_000_000_000_000 <= x
        <= 40_000_000_000_000_000_000_000_000_000_000_000_000
}

/// The points of a lead.
pub fn count_lead_points(f: PlayFacts, p: AdvancedBotParams, c: Combination) -> (x: i128)
    requires
        p.ok(),
    ensures
        x == lead_points(f, p, c),
        within_total(x as int),
{
    let mut x: i128 = points(50);
    x = x + split_points(f, p);
    x = x + lead_bare_single_points(f, c.kind);
    x = x + lead_bomb_points(f, c.kind);
    x = x + level_bomb_points(f, c.kind);
    x = x + keep_bomb_points(f, p, c.kind);
    x = x + lead_feed_points(f, p, c.kind, c.primary);
    x = x + lead_block_points(f, p, c.kind, c.primary);
    x = x + lead_shape_points(f, p, c.kind, c.primary);
    x = x + lead_singles_points(f, p, c.kind);
    x = x + lead_build_points(f, p, c.kind);
    x = x + lead_scatter_points(f, p, c.kind);
    x = x + lead_small_points(p, c.kind, c.primary);
    x = x + lead_wild_points(f, p, c.kind);
    x = x + upgraded_points(f, p);
    x = x + wild_on_level_points(f, p, c.kind);
    x = x + level_face_points(f, p, c.kind);
    x = x + wild_waste_points(f, p, c.kind, false);
    x = x + broken_bomb_points(f, c.kind);
    x = x + dual_wild_points(f, p, c.kind);
    x = x + conserve_points(f, c.kind);
    x = x + strand_points(f);
    x = x + level_pair_points(f, c.kind);
    x = x + four_level_points(f);
    x = x + bomb_order_points(c.kind);
    x = x + lead_high_points(f);
    x = x + lead_top_points(f, c.kind);
    x = x + lead_partner_out_points(f, p);
    x = x + lead_last_bomb_points(f, c.kind);
    x = x + lead_empty_bomb_points(f, p, c.kind);
    x = x + small_left_points(f, p);
    x = x + lead_clear_points(f);
    x
}

/// The points of a lead for going down in few tricks.
pub fn count_plan_points(f: PlayFacts, p: AdvancedBotParams, tricks: usize) -> (x: i128)
    requires
        p.ok(),
    ensures
        x == plan_points(f, p, tricks as nat),
        within(x as int),
{
    times(f.lone, p.solver_junk_bonus) - times(tricks, p.solver_trick_penalty)
}

/// The points of an answer to `top`.
pub fn count_follow_points(
    f: PlayFacts,
    p: AdvancedBotParams,
    c: Combination,
    top: Combination,
    partner_led: bool,
    rescue: bool,
) -> (x: i128)
    requires
        p.ok(),
    ensures
        x == follow_points(f, p, c, top, partner_led, rescue),
        within_total(x as int),
{
    let mut x: i128 = points(100);
    x = x + split_points(f, p);
    x = x + follow_bomb_points(f, p, c.kind, top.kind);
    x = x + level_bomb_points(f, c.kind);
    x = x + keep_bomb_points(f, p, c.kind);
    x = x + follow_over_points(f, p, c.kind, top.kind);
    x = x + follow_wild_points(f, p, c.kind, top.kind);
    x = x + upgraded_points(f, p);
    x = x + follow_margin_points(c.primary, top.primary);
    x = x + follow_count_points(f, c.kind);
    x = x + follow_endgame_points(f, p);
    x = x + follow_scatter_points(f, c.kind);
    x = x + follow_team_points(f, p, c.kind, partner_led);
    x = x + follow_singles_points(f, p, c.kind);
    x = x + follow_block_points(f, p, c.kind, c.primary, top.kind);
    x = x + wild_on_level_points(f, p, c.kind);
    x = x + level_face_points(f, p, c.kind);
    x = x + wild_waste_points(f, p, c.kind, rescue);
    x = x + broken_bomb_points(f, c.kind);
    x = x + follow_dual_pair_points(f, c.kind);
    x = x + dual_wild_points(f, p, c.kind);
    x = x + conserve_points(f, c.kind);
    x = x + strand_points(f);
    x = x + level_pair_points(f, c.kind);
    x = x + four_level_points(f);
    x = x + bomb_order_points(c.kind);
    x = x + follow_partner_out_points(f, p);
    x = x + small_left_points(f, p);
    x = x + follow_clear_points(f);
    x
}

} // verus!
