//! What the points of a play are for: how they change with what is known of it.
//!
//! Most of these laws compare two plays that are alike but for one fact.

use vstd::prelude::*;
use crate::combination_parser::{BombKind, Combination, CombinationKind, OrdinaryKind};
use crate::params::AdvancedBotParams;
use crate::play_facts::PlayFacts;
use crate::scoring_terms::{
    bomb_order_term, broken_bomb_term, conserve_term, dual_wild_term, follow_block_term,
    follow_bomb_term, follow_clear_term, follow_count_term, follow_dual_pair_term,
    follow_endgame_term, follow_margin_term, follow_over_term, follow_partner_out_term,
    follow_points, follow_scatter_term, follow_singles_term, follow_team_term, follow_wild_term,
    four_level_term, keep_bomb_term, lead_bare_single_term, lead_block_term, lead_bomb_term,
    lead_build_term, lead_clear_term, lead_empty_bomb_term, lead_feed_term, lead_high_term,
    lead_last_bomb_term, lead_partner_out_term, lead_points, lead_scatter_term, lead_shape_term,
    lead_singles_term, lead_small_term, lead_top_term, lead_wild_term, level_bomb_term,
    level_face_term, level_pair_term, plan_points, pts, small_left_term, split_term, strand_term,
    upgraded_term, wild_on_level_term, wild_waste_term,
};

verus! {

/// A run: a straight, a tube or a plate.
pub open spec fn is_run(kind: CombinationKind) -> bool {
    kind matches CombinationKind::Ordinary(k) && (k == OrdinaryKind::Straight || k
        == OrdinaryKind::Tube || k == OrdinaryKind::Plate)
}

/// A bomb of a kind and a value.
pub open spec fn bomb_of(kind: BombKind, primary: u8) -> Combination {
    Combination { kind: CombinationKind::Bomb(kind), primary }
}

/// What each part of the points of a lead goes by.
proof fn lemma_lead_reads(f: PlayFacts, g: PlayFacts, p: AdvancedBotParams, c: Combination)
    ensures
        f.split == g.split ==> split_term(f, p) == split_term(g, p),
        f.first_joker == g.first_joker && f.first_level == g.first_level && f.held == g.held ==> lead_bare_single_term(f, c.kind) == lead_bare_single_term(g, c.kind),
        f.bombs == g.bombs && f.count == g.count && f.held == g.held ==> lead_bomb_term(f, c.kind) == lead_bomb_term(g, c.kind),
        f.level_cards == g.level_cards ==> level_bomb_term(f, c.kind) == level_bomb_term(g, c.kind),
        f.bombs == g.bombs && f.count == g.count && f.held == g.held ==> keep_bomb_term(f, p, c.kind) == keep_bomb_term(g, p, c.kind),
        f.partner_left == g.partner_left ==> lead_feed_term(f, p, c.kind, c.primary) == lead_feed_term(g, p, c.kind, c.primary),
        f.min_opponent == g.min_opponent ==> lead_block_term(f, p, c.kind, c.primary) == lead_block_term(g, p, c.kind, c.primary),
        f.count == g.count && f.endgame == g.endgame ==> lead_shape_term(f, p, c.kind, c.primary) == lead_shape_term(g, p, c.kind, c.primary),
        f.hand_lone == g.hand_lone && f.hand_small_lone == g.hand_small_lone && f.held == g.held && f.lone == g.lone && f.small_lone == g.small_lone ==> lead_singles_term(f, p, c.kind) == lead_singles_term(g, p, c.kind),
        f.builds_straight == g.builds_straight ==> lead_build_term(f, p, c.kind) == lead_build_term(g, p, c.kind),
        f.count == g.count && f.held == g.held && f.singles_after == g.singles_after && f.wilds == g.wilds ==> lead_scatter_term(f, p, c.kind) == lead_scatter_term(g, p, c.kind),
        f.count == g.count && f.held == g.held && f.leaves_singles == g.leaves_singles && f.leaves_straight == g.leaves_straight && f.wild_triple == g.wild_triple && f.wilds == g.wilds ==> lead_wild_term(f, p, c.kind) == lead_wild_term(g, p, c.kind),
        f.count == g.count && f.held == g.held && f.min_opponent == g.min_opponent && f.upgraded == g.upgraded ==> upgraded_term(f, p) == upgraded_term(g, p),
        f.count == g.count && f.held == g.held && f.level_cards == g.level_cards && f.wilds == g.wilds ==> wild_on_level_term(f, p, c.kind) == wild_on_level_term(g, p, c.kind),
        f.count == g.count && f.held == g.held && f.level_faces == g.level_faces && f.wilds == g.wilds ==> level_face_term(f, p, c.kind) == level_face_term(g, p, c.kind),
        f.count == g.count && f.held == g.held && f.plain_pair == g.plain_pair && f.wilds == g.wilds ==> wild_waste_term(f, p, c.kind, false) == wild_waste_term(g, p, c.kind, false),
        f.split_banned == g.split_banned ==> broken_bomb_term(f, c.kind) == broken_bomb_term(g, c.kind),
        f.bare == g.bare && f.count == g.count && f.held == g.held && f.level_cards == g.level_cards && f.wilds == g.wilds ==> dual_wild_term(f, p, c.kind) == dual_wild_term(g, p, c.kind),
        f.could_form == g.could_form && f.count == g.count && f.held == g.held && f.min_opponent == g.min_opponent && f.wilds == g.wilds ==> conserve_term(f, c.kind) == conserve_term(g, c.kind),
        f.count == g.count && f.held == g.held && f.strands == g.strands ==> strand_term(f) == strand_term(g),
        f.level_pair == g.level_pair ==> level_pair_term(f, c.kind) == level_pair_term(g, c.kind),
        f.count == g.count && f.held == g.held && f.level_cards == g.level_cards ==> four_level_term(f) == four_level_term(g),
        f.count == g.count && f.has_joker == g.has_joker && f.held == g.held && f.level_cards == g.level_cards ==> lead_high_term(f) == lead_high_term(g),
        f.count == g.count && f.held == g.held && f.highest == g.highest && f.wilds == g.wilds ==> lead_top_term(f, c.kind) == lead_top_term(g, c.kind),
        f.partner_left == g.partner_left ==> lead_partner_out_term(f, p) == lead_partner_out_term(g, p),
        f.bombs == g.bombs && f.count == g.count && f.endgame == g.endgame && f.held == g.held && f.min_opponent == g.min_opponent && f.plain_bomb_stays == g.plain_bomb_stays ==> lead_last_bomb_term(f, c.kind) == lead_last_bomb_term(g, c.kind),
        f.count == g.count && f.held == g.held && f.only_bombs_left == g.only_bombs_left ==> lead_empty_bomb_term(f, p, c.kind) == lead_empty_bomb_term(g, p, c.kind),
        f.count == g.count && f.held == g.held && f.small_left == g.small_left ==> small_left_term(f, p) == small_left_term(g, p),
        f.count == g.count && f.held == g.held ==> lead_clear_term(f) == lead_clear_term(g),
{
    reveal(split_term);
    reveal(lead_bare_single_term);
    reveal(lead_bomb_term);
    reveal(level_bomb_term);
    reveal(keep_bomb_term);
    reveal(lead_feed_term);
    reveal(lead_block_term);
    reveal(lead_shape_term);
    reveal(lead_singles_term);
    reveal(lead_build_term);
    reveal(lead_scatter_term);
    reveal(lead_wild_term);
    reveal(upgraded_term);
    reveal(wild_on_level_term);
    reveal(level_face_term);
    reveal(wild_waste_term);
    reveal(broken_bomb_term);
    reveal(dual_wild_term);
    reveal(conserve_term);
    reveal(strand_term);
    reveal(level_pair_term);
    reveal(four_level_term);
    reveal(lead_high_term);
    reveal(lead_top_term);
    reveal(lead_partner_out_term);
    reveal(lead_last_bomb_term);
    reveal(lead_empty_bomb_term);
    reveal(small_left_term);
    reveal(lead_clear_term);
}

/// What each part of the points of an answer goes by.
proof fn lemma_follow_reads(
    f: PlayFacts,
    g: PlayFacts,
    p: AdvancedBotParams,
    c: Combination,
    top: Combination,
    led: bool,
    rescue: bool,
)
    ensures
        f.split == g.split ==> split_term(f, p) == split_term(g, p),
        f.bomb_stays == g.bomb_stays && f.bombs == g.bombs && f.count == g.count && f.endgame == g.endgame && f.held == g.held && f.min_opponent == g.min_opponent ==> follow_bomb_term(f, p, c.kind, top.kind) == follow_bomb_term(g, p, c.kind, top.kind),
        f.level_cards == g.level_cards ==> level_bomb_term(f, c.kind) == level_bomb_term(g, c.kind),
        f.bombs == g.bombs && f.count == g.count && f.held == g.held ==> keep_bomb_term(f, p, c.kind) == keep_bomb_term(g, p, c.kind),
        f.count == g.count && f.endgame == g.endgame && f.held == g.held && f.min_opponent == g.min_opponent ==> follow_over_term(f, p, c.kind, top.kind) == follow_over_term(g, p, c.kind, top.kind),
        f.count == g.count && f.endgame == g.endgame && f.held == g.held && f.leaves_singles == g.leaves_singles && f.leaves_straight == g.leaves_straight && f.min_opponent == g.min_opponent && f.wild_triple == g.wild_triple && f.wilds == g.wilds ==> follow_wild_term(f, p, c.kind, top.kind) == follow_wild_term(g, p, c.kind, top.kind),
        f.count == g.count && f.held == g.held && f.min_opponent == g.min_opponent && f.upgraded == g.upgraded ==> upgraded_term(f, p) == upgraded_term(g, p),
        f.count == g.count && f.endgame == g.endgame ==> follow_count_term(f, c.kind) == follow_count_term(g, c.kind),
        f.endgame == g.endgame ==> follow_endgame_term(f, p) == follow_endgame_term(g, p),
        f.count == g.count && f.held == g.held && f.singles_after == g.singles_after ==> follow_scatter_term(f, c.kind) == follow_scatter_term(g, c.kind),
        f.partner_left == g.partner_left ==> follow_team_term(f, p, c.kind, led) == follow_team_term(g, p, c.kind, led),
        f.held == g.held && f.lone == g.lone && f.small_lone == g.small_lone ==> follow_singles_term(f, p, c.kind) == follow_singles_term(g, p, c.kind),
        f.min_opponent == g.min_opponent ==> follow_block_term(f, p, c.kind, c.primary, top.kind) == follow_block_term(g, p, c.kind, c.primary, top.kind),
        f.count == g.count && f.held == g.held && f.level_cards == g.level_cards && f.wilds == g.wilds ==> wild_on_level_term(f, p, c.kind) == wild_on_level_term(g, p, c.kind),
        f.count == g.count && f.held == g.held && f.level_faces == g.level_faces && f.wilds == g.wilds ==> level_face_term(f, p, c.kind) == level_face_term(g, p, c.kind),
        f.count == g.count && f.held == g.held && f.plain_pair == g.plain_pair && f.wilds == g.wilds ==> wild_waste_term(f, p, c.kind, rescue) == wild_waste_term(g, p, c.kind, rescue),
        f.split_banned == g.split_banned ==> broken_bomb_term(f, c.kind) == broken_bomb_term(g, c.kind),
        f.count == g.count && f.held == g.held && f.min_opponent == g.min_opponent && f.wilds == g.wilds ==> follow_dual_pair_term(f, c.kind) == follow_dual_pair_term(g, c.kind),
        f.bare == g.bare && f.count == g.count && f.held == g.held && f.level_cards == g.level_cards && f.wilds == g.wilds ==> dual_wild_term(f, p, c.kind) == dual_wild_term(g, p, c.kind),
        f.could_form == g.could_form && f.count == g.count && f.held == g.held && f.min_opponent == g.min_opponent && f.wilds == g.wilds ==> conserve_term(f, c.kind) == conserve_term(g, c.kind),
        f.count == g.count && f.held == g.held && f.strands == g.strands ==> strand_term(f) == strand_term(g),
        f.level_pair == g.level_pair ==> level_pair_term(f, c.kind) == level_pair_term(g, c.kind),
        f.count == g.count && f.held == g.held && f.level_cards == g.level_cards ==> four_level_term(f) == four_level_term(g),
        f.count == g.count && f.held == g.held && f.partner_left == g.partner_left ==> follow_partner_out_term(f, p) == follow_partner_out_term(g, p),
        f.count == g.count && f.held == g.held && f.small_left == g.small_left ==> small_left_term(f, p) == small_left_term(g, p),
        f.count == g.count && f.held == g.held ==> follow_clear_term(f) == follow_clear_term(g),
{
    reveal(split_term);
    reveal(follow_bomb_term);
    reveal(level_bomb_term);
    reveal(keep_bomb_term);
    reveal(follow_over_term);
    reveal(follow_wild_term);
    reveal(upgraded_term);
    reveal(follow_count_term);
    reveal(follow_endgame_term);
    reveal(follow_scatter_term);
    reveal(follow_team_term);
    reveal(follow_singles_term);
    reveal(follow_block_term);
    reveal(wild_on_level_term);
    reveal(level_face_term);
    reveal(wild_waste_term);
    reveal(broken_bomb_term);
    reveal(follow_dual_pair_term);
    reveal(dual_wild_term);
    reveal(conserve_term);
    reveal(strand_term);
    reveal(level_pair_term);
    reveal(four_level_term);
    reveal(follow_partner_out_term);
    reveal(small_left_term);
    reveal(follow_clear_term);
}

/// Breaking up groups of equal cards costs a play its penalty times the weight.
#[verifier::rlimit(50)]
pub proof fn breaking_groups_costs(
    f: PlayFacts,
    g: PlayFacts,
    p: AdvancedBotParams,
    c: Combination,
    top: Combination,
    led: bool,
    rescue: bool,
)
    requires
        g == (PlayFacts { split: 0, ..f }),
    ensures
        lead_points(f, p, c) - lead_points(g, p, c) == -(f.split * p.split_penalty_scale),
        follow_points(f, p, c, top, led, rescue) - follow_points(g, p, c, top, led, rescue) == -(f.split * p.split_penalty_scale),
{
    lemma_lead_reads(f, g, p, c);
    lemma_follow_reads(f, g, p, c, top, led, rescue);
    reveal(split_term);
    assert(0 * p.split_penalty_scale == 0) by (nonlinear_arith);
}

/// Leaving nothing but wild cards and jokers costs eight hundred points.
#[verifier::rlimit(50)]
pub proof fn stranding_wild_cards_costs(
    f: PlayFacts,
    g: PlayFacts,
    p: AdvancedBotParams,
    c: Combination,
    top: Combination,
    led: bool,
    rescue: bool,
)
    requires
        f.strands,
        g == (PlayFacts { strands: false, ..f }),
    ensures
        lead_points(f, p, c) - lead_points(g, p, c) == if f.count < f.held {
            -pts(800)
        } else {
            0
        },
        follow_points(f, p, c, top, led, rescue) - follow_points(g, p, c, top, led, rescue) == if f.count < f.held {
            -pts(800)
        } else {
            0
        },
{
    lemma_lead_reads(f, g, p, c);
    lemma_follow_reads(f, g, p, c, top, led, rescue);
    reveal(strand_term);
}

/// A play that breaks up a bomb against the rules is barred; a bomb breaks up none.
#[verifier::rlimit(50)]
pub proof fn breaking_bombs_is_barred(
    f: PlayFacts,
    g: PlayFacts,
    p: AdvancedBotParams,
    c: Combination,
    top: Combination,
    led: bool,
    rescue: bool,
)
    requires
        f.split_banned,
        g == (PlayFacts { split_banned: false, ..f }),
    ensures
        lead_points(f, p, c) - lead_points(g, p, c) == if (c.kind is Bomb) {
            0
        } else {
            -pts(99999)
        },
        follow_points(f, p, c, top, led, rescue) - follow_points(g, p, c, top, led, rescue) == if (c.kind is Bomb) {
            0
        } else {
            -pts(99999)
        },
{
    lemma_lead_reads(f, g, p, c);
    lemma_follow_reads(f, g, p, c, top, led, rescue);
    reveal(broken_bomb_term);
}

/// Wild cards that could still complete a bomb are dearer by a hundred and fifty points, while
/// no opponent is about to run out.
#[verifier::rlimit(50)]
pub proof fn useful_wild_cards_are_kept(
    f: PlayFacts,
    g: PlayFacts,
    p: AdvancedBotParams,
    c: Combination,
    top: Combination,
    led: bool,
    rescue: bool,
)
    requires
        f.could_form,
        g == (PlayFacts { could_form: false, ..f }),
    ensures
        lead_points(f, p, c) - lead_points(g, p, c) == if f.wilds >= 1 && !(c.kind is Bomb) && f.count < f.held && f.min_opponent > 6 {
            -pts(150)
        } else {
            0
        },
        follow_points(f, p, c, top, led, rescue) - follow_points(g, p, c, top, led, rescue) == if f.wilds >= 1 && !(c.kind is Bomb) && f.count < f.held && f.min_opponent > 6 {
            -pts(150)
        } else {
            0
        },
{
    lemma_lead_reads(f, g, p, c);
    lemma_follow_reads(f, g, p, c, top, led, rescue);
    reveal(conserve_term);
}

/// A wild card on top of a complete bomb is a waste, while no opponent is about to run out.
#[verifier::rlimit(50)]
pub proof fn bombs_need_no_more_wild_cards(
    f: PlayFacts,
    g: PlayFacts,
    p: AdvancedBotParams,
    c: Combination,
    top: Combination,
    led: bool,
    rescue: bool,
)
    requires
        f.upgraded,
        g == (PlayFacts { upgraded: false, ..f }),
    ensures
        lead_points(f, p, c) - lead_points(g, p, c) == if f.count < f.held && f.min_opponent > 6 {
            -(if f.held > 6 {
                p.upgraded_bomb_wild_mid
            } else {
                p.upgraded_bomb_wild_end
            })
        } else {
            0
        },
        follow_points(f, p, c, top, led, rescue) - follow_points(g, p, c, top, led, rescue) == if f.count < f.held && f.min_opponent > 6 {
            -(if f.held > 6 {
                p.upgraded_bomb_wild_mid
            } else {
                p.upgraded_bomb_wild_end
            })
        } else {
            0
        },
{
    lemma_lead_reads(f, g, p, c);
    lemma_follow_reads(f, g, p, c, top, led, rescue);
    reveal(upgraded_term);
}

/// A bomb of wild cards and cards of the level alone is dear, unless it empties the hand.
#[verifier::rlimit(50)]
pub proof fn level_bombs_are_dear(
    f: PlayFacts,
    g: PlayFacts,
    p: AdvancedBotParams,
    c: Combination,
    top: Combination,
    led: bool,
    rescue: bool,
)
    requires
        f.level_faces,
        g == (PlayFacts { level_faces: false, ..f }),
    ensures
        lead_points(f, p, c) - lead_points(g, p, c) == if f.wilds > 0 && (c.kind is Bomb) && f.count < f.held {
            -(if f.held > 6 {
                p.dual_wild_penalty_mid
            } else {
                p.dual_wild_penalty_end
            })
        } else {
            0
        },
        follow_points(f, p, c, top, led, rescue) - follow_points(g, p, c, top, led, rescue) == if f.wilds > 0 && (c.kind is Bomb) && f.count < f.held {
            -(if f.held > 6 {
                p.dual_wild_penalty_mid
            } else {
                p.dual_wild_penalty_end
            })
        } else {
            0
        },
{
    lemma_lead_reads(f, g, p, c);
    lemma_follow_reads(f, g, p, c, top, led, rescue);
    reveal(level_face_term);
}

/// No full house takes a pair of the level.
#[verifier::rlimit(50)]
pub proof fn level_pairs_stay_out_of_full_houses(
    f: PlayFacts,
    g: PlayFacts,
    p: AdvancedBotParams,
    c: Combination,
    top: Combination,
    led: bool,
    rescue: bool,
)
    requires
        f.level_pair,
        g == (PlayFacts { level_pair: false, ..f }),
    ensures
        lead_points(f, p, c) - lead_points(g, p, c) == if c.kind == CombinationKind::Ordinary(OrdinaryKind::FullHouse) {
            -pts(99999)
        } else {
            0
        },
        follow_points(f, p, c, top, led, rescue) - follow_points(g, p, c, top, led, rescue) == if c.kind == CombinationKind::Ordinary(OrdinaryKind::FullHouse) {
            -pts(99999)
        } else {
            0
        },
{
    lemma_lead_reads(f, g, p, c);
    lemma_follow_reads(f, g, p, c, top, led, rescue);
    reveal(level_pair_term);
}

/// Small single cards that would be all that is left cost so much each.
#[verifier::rlimit(50)]
pub proof fn small_single_cards_are_not_left(
    f: PlayFacts,
    g: PlayFacts,
    p: AdvancedBotParams,
    c: Combination,
    top: Combination,
    led: bool,
    rescue: bool,
)
    requires
        g == (PlayFacts { small_left: 0, ..f }),
    ensures
        lead_points(f, p, c) - lead_points(g, p, c) == if f.count < f.held {
            -(f.small_left * p.avoid_small_singles_each)
        } else {
            0
        },
        follow_points(f, p, c, top, led, rescue) - follow_points(g, p, c, top, led, rescue) == if f.count < f.held {
            -(f.small_left * p.avoid_small_singles_each)
        } else {
            0
        },
{
    lemma_lead_reads(f, g, p, c);
    lemma_follow_reads(f, g, p, c, top, led, rescue);
    reveal(small_left_term);
    assert(0 * p.avoid_small_singles_each == 0) by (nonlinear_arith);
}

/// A wild card in a plain pair is a waste, unless the hand is emptied or the wild cards would
/// be stranded otherwise.
#[verifier::rlimit(50)]
pub proof fn plain_pairs_take_no_wild_card(
    f: PlayFacts,
    g: PlayFacts,
    p: AdvancedBotParams,
    c: Combination,
    top: Combination,
    led: bool,
    rescue: bool,
)
    requires
        f.plain_pair,
        f.wilds > 0,
        c.kind == CombinationKind::Ordinary(OrdinaryKind::Pair),
        g == (PlayFacts { plain_pair: false, ..f }),
    ensures
        lead_points(f, p, c) - lead_points(g, p, c) == if f.count < f.held {
            -(if f.held > 6 {
                p.wild_plain_pair_mid
            } else {
                p.wild_pair_penalty_end
            })
        } else {
            0
        },
        follow_points(f, p, c, top, led, rescue) - follow_points(g, p, c, top, led, rescue) == if f.count < f.held && !rescue {
            -(if f.held > 6 {
                p.wild_plain_pair_mid
            } else {
                p.wild_pair_penalty_end
            })
        } else {
            0
        },
{
    lemma_lead_reads(f, g, p, c);
    lemma_follow_reads(f, g, p, c, top, led, rescue);
    reveal(wild_waste_term);
}

/// A play that is no bomb gains where a bomb stays among the last cards: one to six of them.
#[verifier::rlimit(50)]
pub proof fn keeping_a_bomb_is_rewarded(
    f: PlayFacts,
    g: PlayFacts,
    p: AdvancedBotParams,
    c: Combination,
    top: Combination,
    led: bool,
    rescue: bool,
)
    requires
        f.bombs >= 1,
        !(c.kind is Bomb),
        g == (PlayFacts { bombs: 0, ..f }),
    ensures
        lead_points(f, p, c) - lead_points(g, p, c) == if 1 <= f.held - f.count <= 6 {
            p.keep_bomb_bonus as int
        } else {
            0
        },
        follow_points(f, p, c, top, led, rescue) - follow_points(g, p, c, top, led, rescue) == if 1 <= f.held - f.count <= 6 {
            p.keep_bomb_bonus as int
        } else {
            0
        },
{
    lemma_lead_reads(f, g, p, c);
    lemma_follow_reads(f, g, p, c, top, led, rescue);
    reveal(lead_bomb_term);
    reveal(keep_bomb_term);
    reveal(lead_last_bomb_term);
    reveal(follow_bomb_term);
}

/// With at most six cards in hand each single card that goes is rewarded, and a small one once
/// more; a bomb is not for that.
#[verifier::rlimit(50)]
pub proof fn single_cards_go_in_the_endgame(
    f: PlayFacts,
    g: PlayFacts,
    p: AdvancedBotParams,
    c: Combination,
    top: Combination,
    led: bool,
    rescue: bool,
)
    requires
        f.lone >= 1,
        g == (PlayFacts { lone: 0, small_lone: 0, ..f }),
    ensures
        lead_points(f, p, c) - lead_points(g, p, c) == if f.held <= 6 && !(c.kind is Bomb) {
            f.lone * p.endgame_single_removal + f.small_lone * p.endgame_small_single_removal
        } else {
            0
        },
        follow_points(f, p, c, top, led, rescue) - follow_points(g, p, c, top, led, rescue) == if f.held <= 6 && !(c.kind is Bomb) {
            f.lone * p.endgame_single_removal + f.small_lone * p.endgame_small_single_removal
        } else {
            0
        },
{
    lemma_lead_reads(f, g, p, c);
    lemma_follow_reads(f, g, p, c, top, led, rescue);
    reveal(lead_singles_term);
    reveal(follow_singles_term);
    assert(0 * p.endgame_single_removal == 0) by (nonlinear_arith);
    assert(0 * p.endgame_small_single_removal == 0) by (nonlinear_arith);
}

/// Four cards of the level are not played at once: barred while cards are left, and as a bomb
/// even with the last cards.
#[verifier::rlimit(50)]
pub proof fn four_level_cards_stay_together_in_hand(
    f: PlayFacts,
    g: PlayFacts,
    p: AdvancedBotParams,
    c: Combination,
    top: Combination,
    led: bool,
    rescue: bool,
)
    requires
        f.level_cards >= 4,
        f.wilds == 0,
        g == (PlayFacts { level_cards: 0, ..f }),
    ensures
        follow_points(f, p, c, top, led, rescue) - follow_points(g, p, c, top, led, rescue) == -((if (c.kind is Bomb) {
            pts(99999)
        } else {
            0
        }) + (if f.count < f.held {
            pts(99999)
        } else {
            0
        })),
        lead_points(f, p, c) - lead_points(g, p, c) == -((if (c.kind is Bomb) {
            pts(99999)
        } else {
            0
        }) + (if f.count < f.held {
            pts(99999)
        } else {
            0
        }) + (if f.count < f.held && !f.has_joker {
            pts(40)
        } else {
            0
        })),
{
    lemma_lead_reads(f, g, p, c);
    lemma_follow_reads(f, g, p, c, top, led, rescue);
    reveal(level_bomb_term);
    reveal(wild_on_level_term);
    reveal(dual_wild_term);
    reveal(four_level_term);
    reveal(lead_high_term);
}

/// A wild card beside one to three plain cards of the level, in a pair, triple or bomb, is a
/// waste; in a lead the cards of the level cost forty points more.
#[verifier::rlimit(50)]
pub proof fn level_cards_take_no_wild_card(
    f: PlayFacts,
    g: PlayFacts,
    p: AdvancedBotParams,
    c: Combination,
    top: Combination,
    led: bool,
    rescue: bool,
)
    requires
        1 <= f.level_cards <= 3,
        f.wilds == 1,
        f.count < f.held,
        g == (PlayFacts { level_cards: 0, ..f }),
    ensures
        follow_points(f, p, c, top, led, rescue) - follow_points(g, p, c, top, led, rescue) == if c.kind == CombinationKind::Ordinary(OrdinaryKind::Pair) || c.kind == CombinationKind::Ordinary(OrdinaryKind::Triple) || (c.kind is Bomb) {
            -(if f.held > 6 {
                p.wild_on_level_mid
            } else {
                p.wild_on_level_end
            })
        } else {
            0
        },
        lead_points(f, p, c) - lead_points(g, p, c) == (if c.kind == CombinationKind::Ordinary(OrdinaryKind::Pair) || c.kind == CombinationKind::Ordinary(OrdinaryKind::Triple) || (c.kind is Bomb) {
            -(if f.held > 6 {
                p.wild_on_level_mid
            } else {
                p.wild_on_level_end
            })
        } else {
            0
        }) - if f.has_joker {
            0
        } else {
            pts(40)
        },
{
    lemma_lead_reads(f, g, p, c);
    lemma_follow_reads(f, g, p, c, top, led, rescue);
    reveal(level_bomb_term);
    reveal(wild_on_level_term);
    reveal(dual_wild_term);
    reveal(four_level_term);
    reveal(lead_high_term);
}

/// A wild card alone is barred while other cards are left, and costs ten points as the last
/// card.
#[verifier::rlimit(50)]
pub proof fn wild_cards_are_not_played_alone(
    f: PlayFacts,
    g: PlayFacts,
    p: AdvancedBotParams,
    c: Combination,
    top: Combination,
    led: bool,
    rescue: bool,
)
    requires
        f.wilds == 1,
        c.kind == CombinationKind::Ordinary(OrdinaryKind::Single),
        !f.could_form,
        g == (PlayFacts { wilds: 0, ..f }),
    ensures
        lead_points(f, p, c) - lead_points(g, p, c) == if f.count < f.held {
            -pts(99999)
        } else {
            -pts(10)
        },
        follow_points(f, p, c, top, led, rescue) - follow_points(g, p, c, top, led, rescue) == if f.count < f.held {
            -pts(99999)
        } else {
            -pts(10)
        },
{
    lemma_lead_reads(f, g, p, c);
    lemma_follow_reads(f, g, p, c, top, led, rescue);
    reveal(lead_scatter_term);
    reveal(lead_wild_term);
    reveal(wild_on_level_term);
    reveal(level_face_term);
    reveal(wild_waste_term);
    reveal(dual_wild_term);
    reveal(conserve_term);
    reveal(lead_top_term);
    reveal(follow_wild_term);
    reveal(follow_dual_pair_term);
}

/// A second wild card in a play that leaves cards costs ten points in the endgame where it
/// completes a bomb, full house, plate or tube around plain cards that are not of the level;
/// anything else costs the full weight, and more without a plain card.
#[verifier::rlimit(50)]
pub proof fn two_wild_cards_are_dear(
    f: PlayFacts,
    g: PlayFacts,
    p: AdvancedBotParams,
    c: Combination,
    top: Combination,
    led: bool,
    rescue: bool,
)
    requires
        f.wilds == 2,
        g == (PlayFacts { wilds: 1, ..f }),
        !(c.kind == CombinationKind::Ordinary(OrdinaryKind::Pair)),
    ensures
        lead_points(f, p, c) - lead_points(g, p, c) == if f.count >= f.held {
            0
        } else {
            if f.held <= 6 && !f.bare && f.level_cards == 0 && ((c.kind is Bomb) || c.kind == CombinationKind::Ordinary(OrdinaryKind::FullHouse) || c.kind == CombinationKind::Ordinary(OrdinaryKind::Plate) || c.kind == CombinationKind::Ordinary(OrdinaryKind::Tube)) {
                -pts(10)
            } else {
                -((if f.held > 6 {
                    p.dual_wild_penalty_mid
                } else {
                    p.dual_wild_penalty_end
                }) + if f.bare {
                    p.bare_dual_wild_extra as int
                } else {
                    0
                })
            }
        },
        follow_points(f, p, c, top, led, rescue) - follow_points(g, p, c, top, led, rescue) == if f.count >= f.held {
            0
        } else {
            if f.held <= 6 && !f.bare && f.level_cards == 0 && ((c.kind is Bomb) || c.kind == CombinationKind::Ordinary(OrdinaryKind::FullHouse) || c.kind == CombinationKind::Ordinary(OrdinaryKind::Plate) || c.kind == CombinationKind::Ordinary(OrdinaryKind::Tube)) {
                -pts(10)
            } else {
                -((if f.held > 6 {
                    p.dual_wild_penalty_mid
                } else {
                    p.dual_wild_penalty_end
                }) + if f.bare {
                    p.bare_dual_wild_extra as int
                } else {
                    0
                })
            }
        },
{
    lemma_lead_reads(f, g, p, c);
    lemma_follow_reads(f, g, p, c, top, led, rescue);
    reveal(lead_scatter_term);
    reveal(lead_wild_term);
    reveal(wild_on_level_term);
    reveal(level_face_term);
    reveal(wild_waste_term);
    reveal(dual_wild_term);
    reveal(conserve_term);
    reveal(lead_top_term);
    reveal(follow_wild_term);
    reveal(follow_dual_pair_term);
}

/// Two wild cards are no answer to a pair while no opponent is about to run out: barred on top
/// of what two wild cards cost.
#[verifier::rlimit(50)]
pub proof fn two_wild_cards_answer_no_pair(
    f: PlayFacts,
    g: PlayFacts,
    p: AdvancedBotParams,
    c: Combination,
    top: Combination,
    led: bool,
    rescue: bool,
)
    requires
        f.wilds == 2,
        f.count < f.held,
        g == (PlayFacts { wilds: 1, ..f }),
        c.kind == CombinationKind::Ordinary(OrdinaryKind::Pair),
    ensures
        follow_points(f, p, c, top, led, rescue) - follow_points(g, p, c, top, led, rescue) == (lead_points(f, p, c) - lead_points(g, p, c)) - if f.min_opponent > 6 {
            pts(99999)
        } else {
            0
        },
{
    lemma_lead_reads(f, g, p, c);
    lemma_follow_reads(f, g, p, c, top, led, rescue);
    reveal(lead_scatter_term);
    reveal(lead_wild_term);
    reveal(wild_on_level_term);
    reveal(level_face_term);
    reveal(wild_waste_term);
    reveal(dual_wild_term);
    reveal(conserve_term);
    reveal(lead_top_term);
    reveal(follow_wild_term);
    reveal(follow_dual_pair_term);
}

/// A wild card in a tube or plate is well used.
#[verifier::rlimit(50)]
pub proof fn wild_cards_belong_in_runs(
    f: PlayFacts,
    g: PlayFacts,
    p: AdvancedBotParams,
    c: Combination,
    top: Combination,
    led: bool,
    rescue: bool,
)
    requires
        f.wilds == 1,
        c.kind == CombinationKind::Ordinary(OrdinaryKind::Tube) || c.kind == CombinationKind::Ordinary(OrdinaryKind::Plate),
        !f.could_form,
        g == (PlayFacts { wilds: 0, ..f }),
    ensures
        lead_points(f, p, c) - lead_points(g, p, c) == p.wild_run_bonus as int,
        follow_points(f, p, c, top, led, rescue) - follow_points(g, p, c, top, led, rescue) == p.wild_run_bonus as int,
{
    lemma_lead_reads(f, g, p, c);
    lemma_follow_reads(f, g, p, c, top, led, rescue);
    reveal(lead_scatter_term);
    reveal(lead_wild_term);
    reveal(wild_on_level_term);
    reveal(level_face_term);
    reveal(wild_waste_term);
    reveal(dual_wild_term);
    reveal(conserve_term);
    reveal(lead_top_term);
    reveal(follow_wild_term);
    reveal(follow_dual_pair_term);
}

/// A wild card in a straight is well used, the more where it takes away the price of scattered
/// and high cards.
#[verifier::rlimit(50)]
pub proof fn wild_cards_belong_in_straights(
    f: PlayFacts,
    g: PlayFacts,
    p: AdvancedBotParams,
    c: Combination,
    top: Combination,
    led: bool,
    rescue: bool,
)
    requires
        f.wilds == 1,
        c.kind == CombinationKind::Ordinary(OrdinaryKind::Straight),
        !f.could_form,
        g == (PlayFacts { wilds: 0, ..f }),
        p.many_singles_penalty >= 0,
    ensures
        lead_points(f, p, c) - lead_points(g, p, c) >= p.wild_run_bonus,
        f.singles_after == 0 && f.highest <= 10 ==> lead_points(f, p, c) - lead_points(g, p, c) == p.wild_run_bonus,
        follow_points(f, p, c, top, led, rescue) - follow_points(g, p, c, top, led, rescue) == p.wild_run_bonus as int,
{
    lemma_lead_reads(f, g, p, c);
    lemma_follow_reads(f, g, p, c, top, led, rescue);
    reveal(lead_scatter_term);
    reveal(lead_wild_term);
    reveal(wild_on_level_term);
    reveal(level_face_term);
    reveal(wild_waste_term);
    reveal(dual_wild_term);
    reveal(conserve_term);
    reveal(lead_top_term);
    reveal(follow_wild_term);
    reveal(follow_dual_pair_term);
}

/// A wild card that makes a bomb of plain cards below the level is well used; to answer a bomb
/// it is not, before the endgame and while no opponent is about to run out.
#[verifier::rlimit(50)]
pub proof fn wild_cards_belong_in_bombs(
    f: PlayFacts,
    g: PlayFacts,
    p: AdvancedBotParams,
    c: Combination,
    top: Combination,
    led: bool,
    rescue: bool,
)
    requires
        f.wilds == 1,
        (c.kind is Bomb),
        f.level_cards == 0,
        !f.level_faces,
        !f.leaves_straight,
        !f.leaves_singles,
        g == (PlayFacts { wilds: 0, ..f }),
    ensures
        lead_points(f, p, c) - lead_points(g, p, c) == p.wild_bomb_bonus,
        follow_points(f, p, c, top, led, rescue) - follow_points(g, p, c, top, led, rescue) == if top.kind is Bomb && !f.endgame && f.min_opponent > 6 && f.count < f.held {
            0
        } else {
            p.wild_bomb_bonus as int
        },
{
    lemma_lead_reads(f, g, p, c);
    lemma_follow_reads(f, g, p, c, top, led, rescue);
    reveal(lead_scatter_term);
    reveal(lead_wild_term);
    reveal(wild_on_level_term);
    reveal(level_face_term);
    reveal(wild_waste_term);
    reveal(dual_wild_term);
    reveal(conserve_term);
    reveal(lead_top_term);
    reveal(follow_wild_term);
    reveal(follow_dual_pair_term);
}

/// A straight flush with a wild card gains where it leaves a straight, and loses where it
/// leaves three single cards.
#[verifier::rlimit(50)]
pub proof fn straights_left_are_rewarded(
    f: PlayFacts,
    g: PlayFacts,
    p: AdvancedBotParams,
    c: Combination,
    top: Combination,
    led: bool,
    rescue: bool,
)
    requires
        f.wilds > 0,
        c.kind == CombinationKind::Bomb(BombKind::StraightFlush),
        f.count < f.held,
        f.leaves_straight != f.leaves_singles,
        g == (PlayFacts { leaves_straight: false, leaves_singles: false, ..f }),
    ensures
        lead_points(f, p, c) - lead_points(g, p, c) == if f.leaves_straight {
            pts(450) + p.keep_bomb_bonus
        } else {
            -pts(250)
        },
        follow_points(f, p, c, top, led, rescue) - follow_points(g, p, c, top, led, rescue) == if top.kind is Bomb && !f.endgame && f.min_opponent > 6 {
            0
        } else {
            if f.leaves_straight {
                pts(450)
            } else {
                -pts(250)
            }
        },
{
    lemma_lead_reads(f, g, p, c);
    lemma_follow_reads(f, g, p, c, top, led, rescue);
    reveal(lead_wild_term);
    reveal(follow_wild_term);
}

/// A full house whose triple is a pair with a wild card is dear, but for fifteen points in the
/// endgame.
#[verifier::rlimit(50)]
pub proof fn pairs_are_not_stretched(
    f: PlayFacts,
    g: PlayFacts,
    p: AdvancedBotParams,
    c: Combination,
    top: Combination,
    led: bool,
    rescue: bool,
)
    requires
        f.wilds > 0,
        c.kind == CombinationKind::Ordinary(OrdinaryKind::FullHouse),
        f.count < f.held,
        f.wild_triple,
        g == (PlayFacts { wild_triple: false, ..f }),
    ensures
        lead_points(f, p, c) - lead_points(g, p, c) == if f.held <= 6 {
            -pts(15)
        } else {
            -pts(300)
        },
        follow_points(f, p, c, top, led, rescue) - follow_points(g, p, c, top, led, rescue) == if f.endgame {
            -pts(15)
        } else {
            -pts(300)
        },
{
    lemma_lead_reads(f, g, p, c);
    lemma_follow_reads(f, g, p, c, top, led, rescue);
    reveal(lead_wild_term);
    reveal(follow_wild_term);
}

/// A play of plain cards that empties the hand beats the same play with cards left, by ten
/// thousand points less what keeping a bomb is worth.
#[verifier::rlimit(50)]
pub proof fn going_out_is_rewarded(
    f: PlayFacts,
    g: PlayFacts,
    p: AdvancedBotParams,
    c: Combination,
    top: Combination,
    led: bool,
    rescue: bool,
)
    requires
        f.count == f.held,
        g.count < g.held,
        g == (PlayFacts { held: g.held, ..f }),
        (f.held <= 6) == (g.held <= 6),
        !(c.kind is Bomb),
        f.wilds == 0,
        !f.upgraded,
        p.keep_bomb_bonus >= 0,
        p.many_singles_penalty >= 0,
        p.avoid_small_singles_each >= 0,
        p.partner_feng_lead_bonus >= 0,
    ensures
        lead_points(f, p, c) - lead_points(g, p, c) >= pts(10000) - p.keep_bomb_bonus,
        follow_points(f, p, c, top, led, rescue) - follow_points(g, p, c, top, led, rescue) >= pts(10000) - p.keep_bomb_bonus - p.partner_feng_lead_bonus,
{
    lemma_lead_reads(f, g, p, c);
    lemma_follow_reads(f, g, p, c, top, led, rescue);
    reveal(lead_bare_single_term);
    reveal(lead_bomb_term);
    reveal(keep_bomb_term);
    reveal(lead_singles_term);
    reveal(lead_scatter_term);
    reveal(lead_wild_term);
    reveal(upgraded_term);
    reveal(wild_on_level_term);
    reveal(level_face_term);
    reveal(wild_waste_term);
    reveal(dual_wild_term);
    reveal(conserve_term);
    reveal(strand_term);
    reveal(four_level_term);
    reveal(lead_high_term);
    reveal(lead_top_term);
    reveal(lead_last_bomb_term);
    reveal(lead_empty_bomb_term);
    reveal(small_left_term);
    reveal(lead_clear_term);
    reveal(follow_bomb_term);
    reveal(follow_over_term);
    reveal(follow_wild_term);
    reveal(follow_scatter_term);
    reveal(follow_singles_term);
    reveal(follow_dual_pair_term);
    reveal(follow_partner_out_term);
    reveal(follow_clear_term);
    assert(f.small_left * p.avoid_small_singles_each >= 0) by (nonlinear_arith)
        requires
            f.small_left >= 0,
            p.avoid_small_singles_each >= 0,
    ;
}

/// From seven cards up, a joker or a card of the level is not led alone.
#[verifier::rlimit(50)]
pub proof fn high_single_cards_are_not_led(
    f: PlayFacts,
    g: PlayFacts,
    p: AdvancedBotParams,
    c: Combination,
)
    requires
        f.first_joker || f.first_level,
        g == (PlayFacts { first_joker: false, first_level: false, ..f }),
    ensures
        lead_points(f, p, c) - lead_points(g, p, c) == if f.held > 6 && c.kind == CombinationKind::Ordinary(OrdinaryKind::Single) {
            -pts(99999)
        } else {
            0
        },
{
    lemma_lead_reads(f, g, p, c);
    reveal(lead_bare_single_term);
}

/// To a partner with one card a single is led, the lower the better, rather than anything else.
#[verifier::rlimit(50)]
pub proof fn partner_with_one_card_is_fed(
    f: PlayFacts,
    g: PlayFacts,
    p: AdvancedBotParams,
    c: Combination,
    d: Combination,
)
    requires
        f.partner_left == 1,
        g.partner_left > 6,
        g == (PlayFacts { partner_left: g.partner_left, ..f }),
        c.kind == CombinationKind::Ordinary(OrdinaryKind::Single),
        d.kind == c.kind,
    ensures
        lead_points(f, p, c) - lead_points(g, p, c) == pts(400 - 8 * c.primary),
        c.primary < d.primary ==> lead_points(f, p, c) - lead_points(g, p, c) > lead_points(f, p, d) - lead_points(g, p, d),
        c.primary <= 17 ==> lead_points(f, p, c) > lead_points(g, p, c),
{
    lemma_lead_reads(f, g, p, c);
    lemma_lead_reads(f, g, p, d);
    reveal(lead_feed_term);
    reveal(lead_partner_out_term);
}

/// To a partner with one card no pair, triple or longer play is led; for bombs it makes no
/// difference.
#[verifier::rlimit(50)]
pub proof fn partner_with_one_card_gets_no_groups(
    f: PlayFacts,
    g: PlayFacts,
    p: AdvancedBotParams,
    c: Combination,
)
    requires
        f.partner_left == 1,
        g.partner_left > 6,
        g == (PlayFacts { partner_left: g.partner_left, ..f }),
        !(c.kind == CombinationKind::Ordinary(OrdinaryKind::Single)),
    ensures
        lead_points(f, p, c) - lead_points(g, p, c) == if (c.kind is Bomb) {
            0
        } else {
            -pts(20)
        },
{
    lemma_lead_reads(f, g, p, c);
    reveal(lead_feed_term);
    reveal(lead_partner_out_term);
}

/// To a partner with two cards a pair is led, the lower the better.
#[verifier::rlimit(50)]
pub proof fn partner_with_two_cards_is_fed(
    f: PlayFacts,
    g: PlayFacts,
    p: AdvancedBotParams,
    c: Combination,
    d: Combination,
)
    requires
        f.partner_left == 2,
        g.partner_left > 6,
        g == (PlayFacts { partner_left: g.partner_left, ..f }),
    ensures
        lead_points(f, p, c) - lead_points(g, p, c) == if c.kind == CombinationKind::Ordinary(OrdinaryKind::Pair) {
            pts(400 - 8 * c.primary)
        } else {
            0
        },
        c.kind == CombinationKind::Ordinary(OrdinaryKind::Pair) && d.kind == c.kind && c.primary < d.primary ==> lead_points(f, p, c) - lead_points(g, p, c) > lead_points(f, p, d) - lead_points(g, p, d),
        c.kind == CombinationKind::Ordinary(OrdinaryKind::Pair) && c.primary <= 17 ==> lead_points(f, p, c) > lead_points(g, p, c),
{
    lemma_lead_reads(f, g, p, c);
    lemma_lead_reads(f, g, p, d);
    reveal(lead_feed_term);
    reveal(lead_partner_out_term);
}

/// To a partner with three cards a triple is led; to one with four to six a pair, a run or a
/// full house; a partner who is out is worth a bonus of its own.
#[verifier::rlimit(50)]
pub proof fn partner_with_few_cards_is_fed(
    f: PlayFacts,
    g: PlayFacts,
    p: AdvancedBotParams,
    c: Combination,
)
    requires
        f.partner_left <= 6,
        f.partner_left != 1,
        f.partner_left != 2,
        g.partner_left > 6,
        g == (PlayFacts { partner_left: g.partner_left, ..f }),
    ensures
        lead_points(f, p, c) - lead_points(g, p, c) == if f.partner_left == 0 {
            p.partner_feng_first_bonus + if c.kind == CombinationKind::Ordinary(OrdinaryKind::Pair) || is_run(c.kind) || c.kind == CombinationKind::Ordinary(OrdinaryKind::FullHouse) {
                p.teammate_combo_bonus as int
            } else {
                0
            }
        } else if f.partner_left == 3 {
            if c.kind == CombinationKind::Ordinary(OrdinaryKind::Triple) {
                pts(40)
            } else {
                0
            }
        } else if c.kind == CombinationKind::Ordinary(OrdinaryKind::Pair) || is_run(c.kind) || c.kind == CombinationKind::Ordinary(OrdinaryKind::FullHouse) {
            p.teammate_combo_bonus as int
        } else {
            0
        },
{
    lemma_lead_reads(f, g, p, c);
    reveal(lead_feed_term);
    reveal(lead_partner_out_term);
}

/// While the opponent with fewest cards holds two, that takes points off every pair led up to
/// the jokers, off a low pair more than off a high one, and off any pair more than off any
/// single, which gains.
#[verifier::rlimit(50)]
pub proof fn opponent_with_two_cards_gets_no_pair(
    f: PlayFacts,
    g: PlayFacts,
    p: AdvancedBotParams,
    c: Combination,
    d: Combination,
)
    requires
        f.min_opponent == 2,
        !f.upgraded,
        f.wilds == 0 || !f.could_form,
        !(c.kind is Bomb),
        g.min_opponent > 6,
        g == (PlayFacts { min_opponent: g.min_opponent, ..f }),
        !(d.kind is Bomb),
    ensures
        c.kind == CombinationKind::Ordinary(OrdinaryKind::Pair) && c.primary <= 17 ==> lead_points(f, p, c) < lead_points(g, p, c),
        c.kind == CombinationKind::Ordinary(OrdinaryKind::Pair) && d.kind == c.kind && c.primary < d.primary ==> lead_points(f, p, c) - lead_points(g, p, c) < lead_points(f, p, d) - lead_points(g, p, d),
        c.kind == CombinationKind::Ordinary(OrdinaryKind::Pair) && c.primary <= 17 && d.kind == CombinationKind::Ordinary(OrdinaryKind::Single) ==> lead_points(f, p, c) - lead_points(g, p, c) < lead_points(f, p, d) - lead_points(g, p, d),
        c.kind == CombinationKind::Ordinary(OrdinaryKind::Single) ==> lead_points(f, p, c) - lead_points(g, p, c) == pts(60),
        c.kind == CombinationKind::Ordinary(OrdinaryKind::Pair) ==> lead_points(f, p, c) - lead_points(g, p, c) == pts(8 * c.primary - 400),
        !(c.kind == CombinationKind::Ordinary(OrdinaryKind::Pair)) && !(c.kind == CombinationKind::Ordinary(OrdinaryKind::Single)) ==> lead_points(f, p, c) == lead_points(g, p, c),
{
    lemma_lead_reads(f, g, p, c);
    lemma_lead_reads(f, g, p, d);
    reveal(lead_block_term);
    reveal(upgraded_term);
    reveal(conserve_term);
    reveal(lead_last_bomb_term);
}

/// While the opponent with fewest cards holds one, that takes points off every single led up to
/// the jokers, off a low one more than off a high one; a pair gains most, any other group a
/// little.
#[verifier::rlimit(50)]
pub proof fn opponent_with_one_card_gets_no_single(
    f: PlayFacts,
    g: PlayFacts,
    p: AdvancedBotParams,
    c: Combination,
    d: Combination,
)
    requires
        f.min_opponent == 1,
        !f.upgraded,
        f.wilds == 0 || !f.could_form,
        !(c.kind is Bomb),
        g.min_opponent > 6,
        g == (PlayFacts { min_opponent: g.min_opponent, ..f }),
        !(d.kind is Bomb),
    ensures
        c.kind == CombinationKind::Ordinary(OrdinaryKind::Single) && c.primary <= 17 ==> lead_points(f, p, c) < lead_points(g, p, c),
        c.kind == CombinationKind::Ordinary(OrdinaryKind::Single) && d.kind == c.kind && c.primary < d.primary ==> lead_points(f, p, c) - lead_points(g, p, c) < lead_points(f, p, d) - lead_points(g, p, d),
        c.kind == CombinationKind::Ordinary(OrdinaryKind::Single) ==> lead_points(f, p, c) - lead_points(g, p, c) == pts(8 * c.primary - 390),
        c.kind == CombinationKind::Ordinary(OrdinaryKind::Pair) ==> lead_points(f, p, c) - lead_points(g, p, c) == pts(130),
        !(c.kind == CombinationKind::Ordinary(OrdinaryKind::Pair)) && !(c.kind == CombinationKind::Ordinary(OrdinaryKind::Single)) ==> lead_points(f, p, c) - lead_points(g, p, c) == pts(10),
{
    lemma_lead_reads(f, g, p, c);
    lemma_lead_reads(f, g, p, d);
    reveal(lead_block_term);
    reveal(upgraded_term);
    reveal(conserve_term);
    reveal(lead_last_bomb_term);
}

/// While the opponent with fewest cards holds three to six, or is out of reach with none, low
/// singles and pairs lose points, high ones gain the weight for blocking, and runs and full
/// houses that for shape.
#[verifier::rlimit(50)]
pub proof fn opponent_with_few_cards_is_blocked(
    f: PlayFacts,
    g: PlayFacts,
    p: AdvancedBotParams,
    c: Combination,
)
    requires
        f.min_opponent <= 6,
        f.min_opponent != 1,
        f.min_opponent != 2,
        !f.upgraded,
        f.wilds == 0 || !f.could_form,
        !(c.kind is Bomb),
        g.min_opponent > 6,
        g == (PlayFacts { min_opponent: g.min_opponent, ..f }),
    ensures
        lead_points(f, p, c) - lead_points(g, p, c) == if c.kind == CombinationKind::Ordinary(OrdinaryKind::Single) {
            if c.primary > 10 {
                p.block_enemy_bonus as int
            } else {
                -pts(30)
            }
        } else if c.kind == CombinationKind::Ordinary(OrdinaryKind::Pair) {
            if c.primary > 10 {
                p.block_enemy_bonus as int
            } else {
                -pts(15)
            }
        } else if is_run(c.kind) || c.kind == CombinationKind::Ordinary(OrdinaryKind::FullHouse) {
            p.combo_shape_bonus as int
        } else {
            0
        },
{
    lemma_lead_reads(f, g, p, c);
    reveal(lead_block_term);
    reveal(upgraded_term);
    reveal(conserve_term);
    reveal(lead_last_bomb_term);
}

/// With nobody about to run out, the lower of two leads of a kind is ahead by the weight for
/// each step, and cards above the ten by more: what small cards are worth, and thirty points.
#[verifier::rlimit(50)]
pub proof fn lower_cards_are_led_first(
    f: PlayFacts,
    p: AdvancedBotParams,
    c: Combination,
    d: Combination,
)
    requires
        f.partner_left > 6,
        f.min_opponent > 6,
        c.kind == d.kind,
        c.primary <= d.primary,
    ensures
        lead_points(f, p, c) - lead_points(f, p, d) == (d.primary - c.primary) * (if f.endgame && !(c.kind is Bomb) {
            p.lead_primary_step_endgame
        } else {
            p.lead_primary_step
        }) + if c.primary <= 10 && d.primary > 10 && !(c.kind is Bomb) {
            pts(30) + p.small_card_lead_bonus + if c.kind == CombinationKind::Ordinary(OrdinaryKind::Single) {
                p.small_single_lead_bonus as int
            } else {
                0
            }
        } else {
            0
        },
{
    reveal(lead_feed_term);
    reveal(lead_block_term);
    reveal(lead_shape_term);
    reveal(lead_small_term);
    let s = if f.endgame && !(c.kind is Bomb) {
        p.lead_primary_step_endgame
    } else {
        p.lead_primary_step
    };
    assert((d.primary - c.primary) * s == d.primary * s - c.primary * s) by (nonlinear_arith);
}

/// With more than six cards left either way and no single ones, a card more in a lead is worth
/// the weight for length.
#[verifier::rlimit(50)]
pub proof fn longer_leads_come_first(
    f: PlayFacts,
    g: PlayFacts,
    p: AdvancedBotParams,
    c: Combination,
)
    requires
        g == (PlayFacts { count: g.count, ..f }),
        f.singles_after == 0,
        f.held - f.count > 6,
        g.held - g.count > 6,
        f.count < f.held,
        g.count < g.held,
    ensures
        lead_points(f, p, c) - lead_points(g, p, c) == (f.count - g.count) * (if f.endgame && !(c.kind is Bomb) {
            p.lead_len_step_endgame
        } else {
            p.lead_len_step
        }),
{
    lemma_lead_reads(f, g, p, c);
    reveal(lead_bomb_term);
    reveal(keep_bomb_term);
    reveal(lead_shape_term);
    reveal(lead_scatter_term);
    reveal(lead_wild_term);
    reveal(upgraded_term);
    reveal(wild_on_level_term);
    reveal(level_face_term);
    reveal(wild_waste_term);
    reveal(dual_wild_term);
    reveal(conserve_term);
    reveal(strand_term);
    reveal(four_level_term);
    reveal(lead_high_term);
    reveal(lead_top_term);
    reveal(lead_last_bomb_term);
    reveal(lead_empty_bomb_term);
    reveal(small_left_term);
    reveal(lead_clear_term);
    let s = if f.endgame && !(c.kind is Bomb) {
        p.lead_len_step_endgame
    } else {
        p.lead_len_step
    };
    assert((f.count - g.count) * s == f.count * s - g.count * s) by (nonlinear_arith);
}

/// A single lead has a bonus of its own, and a small one a further bonus, over a triple of the
/// same value from the same hand.
#[verifier::rlimit(50)]
pub proof fn single_cards_are_led(
    f: PlayFacts,
    p: AdvancedBotParams,
    c: Combination,
    d: Combination,
)
    requires
        f.partner_left > 6,
        f.min_opponent > 6,
        f.wilds == 0,
        !f.first_joker,
        !f.first_level,
        c.kind == CombinationKind::Ordinary(OrdinaryKind::Single),
        d.kind == CombinationKind::Ordinary(OrdinaryKind::Triple),
        c.primary == d.primary,
    ensures
        lead_points(f, p, c) - lead_points(f, p, d) == p.single_lead_bonus + if c.primary <= 10 {
            p.small_single_lead_bonus as int
        } else {
            0
        },
{
    reveal(lead_bare_single_term);
    reveal(lead_bomb_term);
    reveal(level_bomb_term);
    reveal(keep_bomb_term);
    reveal(lead_feed_term);
    reveal(lead_block_term);
    reveal(lead_shape_term);
    reveal(lead_singles_term);
    reveal(lead_build_term);
    reveal(lead_scatter_term);
    reveal(lead_small_term);
    reveal(lead_wild_term);
    reveal(wild_on_level_term);
    reveal(level_face_term);
    reveal(wild_waste_term);
    reveal(broken_bomb_term);
    reveal(dual_wild_term);
    reveal(conserve_term);
    reveal(level_pair_term);
    reveal(bomb_order_term);
    reveal(lead_top_term);
    reveal(lead_last_bomb_term);
    reveal(lead_empty_bomb_term);
}

/// A hand with three single cards in a row is worth a bonus to any lead but a bomb.
#[verifier::rlimit(50)]
pub proof fn rows_of_single_cards_are_rewarded(
    f: PlayFacts,
    g: PlayFacts,
    p: AdvancedBotParams,
    c: Combination,
)
    requires
        f.builds_straight,
        g == (PlayFacts { builds_straight: false, ..f }),
    ensures
        lead_points(f, p, c) - lead_points(g, p, c) == if (c.kind is Bomb) {
            0
        } else {
            p.straight_build_bonus as int
        },
{
    lemma_lead_reads(f, g, p, c);
    reveal(lead_build_term);
}

/// A lead that leaves mostly single cards costs a hundred and fifty points, one that leaves
/// many the weight, one that leaves some twenty points; bombs and straights with a wild card
/// are free of that.
#[verifier::rlimit(50)]
pub proof fn scattered_hands_cost(
    f: PlayFacts,
    g: PlayFacts,
    p: AdvancedBotParams,
    c: Combination,
)
    requires
        g == (PlayFacts { singles_after: 0, ..f }),
    ensures
        lead_points(f, p, c) - lead_points(g, p, c) == if f.held - f.count <= 1 || (c.kind is Bomb) || (c.kind == CombinationKind::Ordinary(OrdinaryKind::Straight) && f.wilds > 0) {
            0
        } else if f.singles_after * 10 > (f.held - f.count) * 6 {
            -pts(150)
        } else if f.singles_after * 10 > (f.held - f.count) * 4 {
            -(p.many_singles_penalty as int)
        } else if f.singles_after * 10 > (f.held - f.count) * 2 {
            -pts(20)
        } else {
            0
        },
{
    lemma_lead_reads(f, g, p, c);
    reveal(lead_scatter_term);
}

/// A joker in a lead costs forty points where there is no card of the level, unless the hand is
/// emptied.
#[verifier::rlimit(50)]
pub proof fn jokers_are_not_led(
    f: PlayFacts,
    g: PlayFacts,
    p: AdvancedBotParams,
    c: Combination,
)
    requires
        f.has_joker,
        f.level_cards == 0,
        g == (PlayFacts { has_joker: false, ..f }),
    ensures
        lead_points(f, p, c) - lead_points(g, p, c) == if f.count < f.held {
            -pts(40)
        } else {
            0
        },
{
    lemma_lead_reads(f, g, p, c);
    reveal(lead_high_term);
}

/// Each step above the ten of the highest card costs a lead eighteen points, unless the hand is
/// emptied or a wild card completes a straight.
#[verifier::rlimit(50)]
pub proof fn high_cards_are_not_led(
    f: PlayFacts,
    g: PlayFacts,
    p: AdvancedBotParams,
    c: Combination,
)
    requires
        g.highest <= 10,
        g == (PlayFacts { highest: g.highest, ..f }),
    ensures
        lead_points(f, p, c) - lead_points(g, p, c) == if f.count < f.held && f.highest > 10 && !(c.kind == CombinationKind::Ordinary(OrdinaryKind::Straight) && f.wilds > 0) {
            -pts(18 * (f.highest - 10))
        } else {
            0
        },
{
    lemma_lead_reads(f, g, p, c);
    reveal(lead_top_term);
}

/// A bomb that leaves anything but bombs costs its weight; for other leads it makes no
/// difference.
#[verifier::rlimit(50)]
pub proof fn leading_bombs_costs(
    f: PlayFacts,
    g: PlayFacts,
    p: AdvancedBotParams,
    c: Combination,
)
    requires
        !f.only_bombs_left,
        g == (PlayFacts { only_bombs_left: true, ..f }),
    ensures
        lead_points(f, p, c) - lead_points(g, p, c) == if (c.kind is Bomb) && f.count < f.held {
            -(p.empty_lead_bomb_penalty as int)
        } else {
            0
        },
{
    lemma_lead_reads(f, g, p, c);
    reveal(lead_empty_bomb_term);
}

/// Before the endgame a bomb that leaves no plain one is not led where the hand has fewer than
/// two, while three or more cards are left and no opponent is about to run out.
#[verifier::rlimit(50)]
pub proof fn last_bombs_are_not_led(
    f: PlayFacts,
    g: PlayFacts,
    p: AdvancedBotParams,
    c: Combination,
)
    requires
        !f.plain_bomb_stays,
        g == (PlayFacts { plain_bomb_stays: true, ..f }),
    ensures
        lead_points(f, p, c) - lead_points(g, p, c) == if (c.kind is Bomb) && !f.endgame && f.bombs < 2 && f.min_opponent > 6 && f.held >= f.count + 3 {
            -pts(99999)
        } else {
            0
        },
{
    lemma_lead_reads(f, g, p, c);
    reveal(lead_last_bomb_term);
}

/// In the endgame the only bomb is not led where with two of them one would be: it gains ten
/// points, and is barred while three or more cards are left and no opponent is about to run
/// out.
#[verifier::rlimit(50)]
pub proof fn only_bomb_of_the_endgame_is_not_led(
    f: PlayFacts,
    g: PlayFacts,
    p: AdvancedBotParams,
    c: Combination,
)
    requires
        f.endgame,
        f.bombs == 1,
        (c.kind is Bomb),
        g == (PlayFacts { bombs: 2, ..f }),
    ensures
        lead_points(f, p, c) - lead_points(g, p, c) == pts(10) - if f.min_opponent > 6 && f.held >= f.count + 3 {
            pts(99999)
        } else {
            0
        },
{
    lemma_lead_reads(f, g, p, c);
    reveal(lead_bomb_term);
    reveal(keep_bomb_term);
    reveal(lead_last_bomb_term);
}

/// Of bombs without a wild card four of a kind are led first, then five, then more or a
/// straight flush, and the jokers last.
#[verifier::rlimit(50)]
pub proof fn small_bombs_are_led_first(
    f: PlayFacts,
    p: AdvancedBotParams,
    primary: u8,
    cards: u8,
)
    requires
        f.wilds == 0,
        6 <= cards <= 10,
    ensures
        ({
            let four = lead_points(f, p, bomb_of(BombKind::SameRank { n: 4 }, primary));
            let five = lead_points(f, p, bomb_of(BombKind::SameRank { n: 5 }, primary));
            let more = lead_points(f, p, bomb_of(BombKind::SameRank { n: cards }, primary));
            let flush = lead_points(f, p, bomb_of(BombKind::StraightFlush, primary));
            let jokers = lead_points(f, p, bomb_of(BombKind::FourJoker, primary));
            &&& four - five == pts(15)
            &&& five - more == pts(10)
            &&& more == flush
            &&& flush - jokers == pts(15)
        }),
{
    reveal(lead_bare_single_term);
    reveal(lead_bomb_term);
    reveal(level_bomb_term);
    reveal(keep_bomb_term);
    reveal(lead_feed_term);
    reveal(lead_block_term);
    reveal(lead_shape_term);
    reveal(lead_singles_term);
    reveal(lead_build_term);
    reveal(lead_scatter_term);
    reveal(lead_small_term);
    reveal(lead_wild_term);
    reveal(wild_on_level_term);
    reveal(level_face_term);
    reveal(wild_waste_term);
    reveal(broken_bomb_term);
    reveal(dual_wild_term);
    reveal(conserve_term);
    reveal(level_pair_term);
    reveal(bomb_order_term);
    reveal(lead_top_term);
    reveal(lead_last_bomb_term);
    reveal(lead_empty_bomb_term);
}

/// Each step by which an answer exceeds the play on the table costs two points, as far as
/// blocking an opponent about to run out is not at stake.
#[verifier::rlimit(50)]
pub proof fn answers_are_no_higher_than_needed(
    f: PlayFacts,
    p: AdvancedBotParams,
    c: Combination,
    d: Combination,
    top: Combination,
    led: bool,
    rescue: bool,
)
    requires
        c.kind == d.kind,
        f.min_opponent > 6 || d.primary <= 10 || c.primary > 10,
        c.primary <= d.primary,
    ensures
        follow_points(f, p, c, top, led, rescue) - follow_points(f, p, d, top, led, rescue) == pts(2 * (d.primary - c.primary)),
{
    reveal(follow_margin_term);
    reveal(follow_block_term);
}

/// Each card of an answer costs three points, but those of a bomb in the endgame cost none,
/// with more than six cards left either way and no single ones.
#[verifier::rlimit(50)]
pub proof fn answers_take_few_cards(
    f: PlayFacts,
    g: PlayFacts,
    p: AdvancedBotParams,
    c: Combination,
    top: Combination,
    led: bool,
    rescue: bool,
)
    requires
        g == (PlayFacts { count: g.count, ..f }),
        f.singles_after == 0,
        f.held - f.count > 6,
        g.held - g.count > 6,
        f.count < f.held,
        g.count < g.held,
    ensures
        follow_points(f, p, c, top, led, rescue) - follow_points(g, p, c, top, led, rescue) == if f.endgame && (c.kind is Bomb) {
            0
        } else {
            pts(3 * (g.count - f.count))
        },
{
    lemma_follow_reads(f, g, p, c, top, led, rescue);
    reveal(follow_bomb_term);
    reveal(keep_bomb_term);
    reveal(follow_over_term);
    reveal(follow_wild_term);
    reveal(upgraded_term);
    reveal(follow_count_term);
    reveal(follow_scatter_term);
    reveal(wild_on_level_term);
    reveal(level_face_term);
    reveal(wild_waste_term);
    reveal(follow_dual_pair_term);
    reveal(dual_wild_term);
    reveal(conserve_term);
    reveal(strand_term);
    reveal(four_level_term);
    reveal(follow_partner_out_term);
    reveal(small_left_term);
    reveal(follow_clear_term);
}

/// Of bombs without a wild card four of a kind answer first, then five, then a straight flush,
/// the jokers, and longer ones last.
#[verifier::rlimit(50)]
pub proof fn small_bombs_answer_first(
    f: PlayFacts,
    p: AdvancedBotParams,
    primary: u8,
    cards: u8,
    top: Combination,
    led: bool,
    rescue: bool,
)
    requires
        f.wilds == 0,
        6 <= cards <= 10,
    ensures
        ({
            let four = follow_points(f, p, bomb_of(BombKind::SameRank { n: 4 }, primary), top, led, rescue);
            let five = follow_points(f, p, bomb_of(BombKind::SameRank { n: 5 }, primary), top, led, rescue);
            let more = follow_points(f, p, bomb_of(BombKind::SameRank { n: cards }, primary), top, led, rescue);
            let flush = follow_points(f, p, bomb_of(BombKind::StraightFlush, primary), top, led, rescue);
            let jokers = follow_points(f, p, bomb_of(BombKind::FourJoker, primary), top, led, rescue);
            &&& four - five == pts(13)
            &&& five - flush == pts(4)
            &&& flush - jokers == pts(8)
            &&& jokers - more == pts(1)
        }),
{
    reveal(follow_bomb_term);
    reveal(level_bomb_term);
    reveal(keep_bomb_term);
    reveal(follow_over_term);
    reveal(follow_wild_term);
    reveal(follow_count_term);
    reveal(follow_scatter_term);
    reveal(follow_team_term);
    reveal(follow_singles_term);
    reveal(follow_block_term);
    reveal(wild_on_level_term);
    reveal(level_face_term);
    reveal(wild_waste_term);
    reveal(broken_bomb_term);
    reveal(follow_dual_pair_term);
    reveal(dual_wild_term);
    reveal(conserve_term);
    reveal(level_pair_term);
    reveal(bomb_order_term);
}

/// A bomb on a single or a pair costs more than one on a triple of the same value, before the
/// endgame and while no opponent is about to run out; other answers do not mind.
#[verifier::rlimit(50)]
pub proof fn low_plays_are_not_bombed(
    f: PlayFacts,
    p: AdvancedBotParams,
    c: Combination,
    top: Combination,
    other: Combination,
    led: bool,
    rescue: bool,
)
    requires
        other.kind == CombinationKind::Ordinary(OrdinaryKind::Triple),
        other.primary == top.primary,
        top.kind == CombinationKind::Ordinary(OrdinaryKind::Single) || top.kind == CombinationKind::Ordinary(OrdinaryKind::Pair),
        f.min_opponent > 6,
    ensures
        follow_points(f, p, c, top, led, rescue) - follow_points(f, p, c, other, led, rescue) == if (c.kind is Bomb) && f.count < f.held && !f.endgame {
            if top.kind == CombinationKind::Ordinary(OrdinaryKind::Single) {
                -(p.bomb_over_single as int)
            } else {
                -(p.bomb_over_pair as int)
            }
        } else {
            0
        },
{
    reveal(follow_bomb_term);
    reveal(follow_over_term);
    reveal(follow_wild_term);
    reveal(follow_margin_term);
    reveal(follow_block_term);
}

/// Before the endgame the last plain bomb is no answer while three or more cards are left and
/// no opponent is about to run out, unless it answers a bomb and another stays.
#[verifier::rlimit(50)]
pub proof fn last_bombs_do_not_answer(
    f: PlayFacts,
    g: PlayFacts,
    p: AdvancedBotParams,
    c: Combination,
    top: Combination,
    led: bool,
    rescue: bool,
)
    requires
        !f.bomb_stays,
        g == (PlayFacts { bomb_stays: true, ..f }),
    ensures
        follow_points(f, p, c, top, led, rescue) - follow_points(g, p, c, top, led, rescue) == if (c.kind is Bomb) && top.kind is Bomb && !f.endgame && f.bombs < 2 && f.min_opponent > 6 && f.held >= f.count + 3 {
            -pts(99999)
        } else {
            0
        },
{
    lemma_follow_reads(f, g, p, c, top, led, rescue);
    reveal(follow_bomb_term);
}

/// One bomb in hand, or none without a wild card, is barred as an answer to no bomb where two
/// would not be, and of three or more the weight is to be paid, before the endgame and while no
/// opponent is about to run out.
#[verifier::rlimit(50)]
pub proof fn bombs_are_kept_for_later(
    f: PlayFacts,
    g: PlayFacts,
    p: AdvancedBotParams,
    c: Combination,
    top: Combination,
    led: bool,
    rescue: bool,
)
    requires
        (c.kind is Bomb),
        !(top.kind is Bomb),
        !f.endgame,
        f.min_opponent > 6,
        f.count < f.held,
        g == (PlayFacts { bombs: 2, ..f }),
    ensures
        follow_points(f, p, c, top, led, rescue) - follow_points(g, p, c, top, led, rescue) == if f.bombs >= 3 {
            -(p.bomb_keep_many as int)
        } else if f.bombs < 2 && f.held >= f.count + 3 {
            -pts(99999)
        } else {
            0
        },
{
    lemma_follow_reads(f, g, p, c, top, led, rescue);
    reveal(follow_bomb_term);
    reveal(keep_bomb_term);
}

/// In the endgame the only bomb is no answer while three or more cards are left and no opponent
/// is about to run out.
#[verifier::rlimit(50)]
pub proof fn only_bomb_of_the_endgame_is_kept(
    f: PlayFacts,
    g: PlayFacts,
    p: AdvancedBotParams,
    c: Combination,
    top: Combination,
    led: bool,
    rescue: bool,
)
    requires
        (c.kind is Bomb),
        f.endgame,
        f.bombs == 1,
        g == (PlayFacts { bombs: 2, ..f }),
    ensures
        follow_points(f, p, c, top, led, rescue) - follow_points(g, p, c, top, led, rescue) == if f.min_opponent > 6 && f.held >= f.count + 3 {
            -pts(99999)
        } else {
            0
        },
{
    lemma_follow_reads(f, g, p, c, top, led, rescue);
    reveal(follow_bomb_term);
    reveal(keep_bomb_term);
}

/// A bomb that leaves mostly single cards costs thirty points; other answers do not mind.
#[verifier::rlimit(50)]
pub proof fn bombs_that_scatter_cost(
    f: PlayFacts,
    g: PlayFacts,
    p: AdvancedBotParams,
    c: Combination,
    top: Combination,
    led: bool,
    rescue: bool,
)
    requires
        g == (PlayFacts { singles_after: 0, ..f }),
    ensures
        follow_points(f, p, c, top, led, rescue) - follow_points(g, p, c, top, led, rescue) == if (c.kind is Bomb) && f.held - f.count > 1 && f.singles_after * 10 > (f.held - f.count) * 6 {
            -pts(30)
        } else {
            0
        },
{
    lemma_follow_reads(f, g, p, c, top, led, rescue);
    reveal(follow_scatter_term);
}

/// An answer to the partner that is no bomb has its bonus.
#[verifier::rlimit(50)]
pub proof fn partner_is_taken_over_for_a_bonus(
    f: PlayFacts,
    p: AdvancedBotParams,
    c: Combination,
    top: Combination,
    rescue: bool,
)
    ensures
        follow_points(f, p, c, top, true, rescue) - follow_points(f, p, c, top, false, rescue) == if (c.kind is Bomb) {
            0
        } else {
            p.partner_feng_bonus as int
        },
{
    reveal(follow_team_term);
}

/// An answer that is no bomb gains ten points for a partner with one card and five for one with
/// up to six; for a partner who is out any answer that leaves cards gains the weight.
#[verifier::rlimit(50)]
pub proof fn answering_helps_a_partner_with_few_cards(
    f: PlayFacts,
    g: PlayFacts,
    p: AdvancedBotParams,
    c: Combination,
    top: Combination,
    led: bool,
    rescue: bool,
)
    requires
        f.partner_left <= 6,
        g.partner_left > 6,
        g == (PlayFacts { partner_left: g.partner_left, ..f }),
    ensures
        follow_points(f, p, c, top, led, rescue) - follow_points(g, p, c, top, led, rescue) == (if (c.kind is Bomb) {
            0
        } else if f.partner_left == 1 {
            pts(10)
        } else {
            pts(5)
        }) + if f.partner_left == 0 && f.count < f.held {
            p.partner_feng_lead_bonus as int
        } else {
            0
        },
{
    lemma_follow_reads(f, g, p, c, top, led, rescue);
    reveal(follow_team_term);
    reveal(follow_partner_out_term);
}

/// Against an opponent about to run out a high card on a single or pair gains the weight for
/// blocking, and an answer to anything else ten points.
#[verifier::rlimit(50)]
pub proof fn answering_stops_an_opponent(
    f: PlayFacts,
    g: PlayFacts,
    p: AdvancedBotParams,
    c: Combination,
    top: Combination,
    led: bool,
    rescue: bool,
)
    requires
        f.min_opponent <= 6,
        f.wilds <= 1,
        !f.upgraded,
        f.wilds == 0 || !f.could_form,
        !(c.kind is Bomb),
        g.min_opponent > 6,
        g == (PlayFacts { min_opponent: g.min_opponent, ..f }),
    ensures
        follow_points(f, p, c, top, led, rescue) - follow_points(g, p, c, top, led, rescue) == if top.kind == CombinationKind::Ordinary(OrdinaryKind::Single) || top.kind == CombinationKind::Ordinary(OrdinaryKind::Pair) {
            if c.primary > 10 {
                p.block_enemy_bonus as int
            } else {
                0
            }
        } else {
            pts(10)
        },
{
    lemma_follow_reads(f, g, p, c, top, led, rescue);
    reveal(follow_bomb_term);
    reveal(follow_over_term);
    reveal(follow_wild_term);
    reveal(upgraded_term);
    reveal(follow_block_term);
    reveal(follow_dual_pair_term);
    reveal(conserve_term);
}

/// Against an opponent about to run out a bomb that leaves cards gains ten points and the
/// weight for stopping, and nothing bars it; with two bombs in hand and an ordinary play other
/// than a single or pair on the table, that is all.
#[verifier::rlimit(50)]
pub proof fn bombs_stop_an_opponent(
    f: PlayFacts,
    g: PlayFacts,
    p: AdvancedBotParams,
    c: Combination,
    top: Combination,
    led: bool,
    rescue: bool,
)
    requires
        f.min_opponent <= 6,
        (c.kind is Bomb),
        !f.upgraded,
        f.wilds == 0,
        f.count < f.held,
        f.bombs == 2,
        !(top.kind is Bomb),
        !(top.kind == CombinationKind::Ordinary(OrdinaryKind::Single)),
        !(top.kind == CombinationKind::Ordinary(OrdinaryKind::Pair)),
        g.min_opponent > 6,
        g == (PlayFacts { min_opponent: g.min_opponent, ..f }),
    ensures
        follow_points(f, p, c, top, led, rescue) - follow_points(g, p, c, top, led, rescue) == pts(10) + p.intercept_sprint_bonus,
{
    lemma_follow_reads(f, g, p, c, top, led, rescue);
    reveal(follow_bomb_term);
    reveal(follow_over_term);
    reveal(follow_wild_term);
    reveal(upgraded_term);
    reveal(follow_block_term);
    reveal(follow_dual_pair_term);
    reveal(conserve_term);
}

/// In the endgame any answer that is no bomb gains ten times the weight for emptying the hand,
/// full houses with a stretched pair apart.
#[verifier::rlimit(50)]
pub proof fn endgame_calls_for_answers(
    f: PlayFacts,
    g: PlayFacts,
    p: AdvancedBotParams,
    c: Combination,
    top: Combination,
    led: bool,
    rescue: bool,
)
    requires
        f.endgame,
        !(c.kind is Bomb),
        !f.wild_triple,
        g == (PlayFacts { endgame: false, ..f }),
    ensures
        follow_points(f, p, c, top, led, rescue) - follow_points(g, p, c, top, led, rescue) == 10 * p.endgame_clear_hand_bias,
{
    lemma_follow_reads(f, g, p, c, top, led, rescue);
    reveal(follow_bomb_term);
    reveal(follow_over_term);
    reveal(follow_wild_term);
    reveal(follow_count_term);
    reveal(follow_endgame_term);
}

/// A bomb that empties the hand gains its bonus and ten thousand points over one that leaves
/// two cards, with nobody about to run out, a bomb in hand and no card of the level or wild
/// card in it.
#[verifier::rlimit(50)]
pub proof fn last_bomb_goes_out(
    f: PlayFacts,
    g: PlayFacts,
    p: AdvancedBotParams,
    c: Combination,
    top: Combination,
    led: bool,
    rescue: bool,
)
    requires
        (c.kind is Bomb),
        f.wilds == 0,
        f.level_cards == 0,
        f.count == f.held,
        g.held == g.count + 2,
        g == (PlayFacts { held: g.held, ..f }),
        g.min_opponent > 6,
        g.bombs == 1,
        g.endgame,
        !f.upgraded,
        !f.strands,
        f.small_left == 0,
        f.singles_after == 0,
        f.partner_left > 6,
    ensures
        follow_points(f, p, c, top, led, rescue) - follow_points(g, p, c, top, led, rescue) == pts(10000) + p.last_play_clear_bonus,
{
    lemma_follow_reads(f, g, p, c, top, led, rescue);
    reveal(follow_bomb_term);
    reveal(keep_bomb_term);
    reveal(follow_over_term);
    reveal(follow_wild_term);
    reveal(upgraded_term);
    reveal(follow_scatter_term);
    reveal(follow_singles_term);
    reveal(wild_on_level_term);
    reveal(level_face_term);
    reveal(wild_waste_term);
    reveal(follow_dual_pair_term);
    reveal(dual_wild_term);
    reveal(conserve_term);
    reveal(strand_term);
    reveal(four_level_term);
    reveal(follow_partner_out_term);
    reveal(small_left_term);
    reveal(follow_clear_term);
}

/// A lead that leaves fewer tricks is ahead by the weight for each, and each single card that goes
/// by its own.
pub proof fn plans_with_fewer_tricks_lead(f: PlayFacts, g: PlayFacts, p: AdvancedBotParams, m: nat, n: nat)
    ensures
        plan_points(f, p, m) - plan_points(f, p, n) == (n - m) * p.solver_trick_penalty,
        plan_points(f, p, n) - plan_points(g, p, n) == (f.lone - g.lone) * p.solver_junk_bonus,
{
    assert((n - m) * p.solver_trick_penalty == n * p.solver_trick_penalty - m
        * p.solver_trick_penalty) by (nonlinear_arith);
    assert((f.lone - g.lone) * p.solver_junk_bonus == f.lone * p.solver_junk_bonus - g.lone
        * p.solver_junk_bonus) by (nonlinear_arith);
}

} // verus!
