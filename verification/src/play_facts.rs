//! What there is to say about a play before points are given for it.

use vstd::prelude::*;
use crate::cards::{
    Card, Rank, RuleContext, Suit, Symbol, card_ok, is_wild, level_rank, natural, natural_of, wild,
};
use crate::combination_parser::{
    CombinationKind, count_rank, number_of_rank, rank_at, rank_from_value,
};
use crate::domain::partner_of;
use crate::hand_combos::{
    BANNED, BombSplitVerdict, SplitRules, analyze_hand_combos, bomb_count, classify_bomb_split,
    count_own, face_symbol_at, faces_held, own_at, own_count, singles_count, split_from,
    split_penalty, split_verdict, values_from,
};
use crate::hand_view::{hand_ok, plain, plain_at, plain_count, plain_value};
use crate::leftovers::{
    bomb_stays, can_form_bomb, leftover, leftover_all_wild, only_wild_left,
    sf_leftover_straights_and_singles, still_has_bomb, straights_and_singles, take_away,
    wilds_could_form_bomb_or_sf,
};
use crate::movegen::count_symbol;
use crate::play_context::{PlayContext, Situation, first_opponent, rank_slot, slot};
use crate::tally::{count_where, lemma_tally_bound, lemma_tally_positive, lemma_tally_step, tally};
use crate::wildcard_resolver::{count_wilds, wild_in, wilds};

verus! {

/// What bears on the points of a play.
#[derive(Clone, Copy, Debug, PartialEq, Eq, Structural)]
pub struct PlayFacts {
    /// Cards in hand before the play.
    pub held: usize,
    /// Cards in the play.
    pub count: usize,
    /// Penalty for breaking up groups of equal cards.
    pub split: u32,
    /// The play breaks up a bomb against the rules.
    pub split_banned: bool,
    /// Wild cards in the play.
    pub wilds: usize,
    /// Plain cards of the level in the play.
    pub level_cards: usize,
    /// The play has a joker.
    pub has_joker: bool,
    /// Bombs in hand that need no wild card.
    pub bombs: usize,
    /// The play is a bomb, and another one, plain or with a wild card, is left.
    pub bomb_stays: bool,
    /// The play is a bomb, and a plain one is left.
    pub plain_bomb_stays: bool,
    /// The endgame has begun.
    pub endgame: bool,
    /// Cards that the partner holds.
    pub partner_left: usize,
    /// Cards that the opponent with fewer of them holds.
    pub min_opponent: usize,
    /// A full house whose triple is a pair with a wild card.
    pub wild_triple: bool,
    /// A full house whose pair is a single with a wild card.
    pub wild_pair: bool,
    /// Wild cards on top of a bomb that needs none.
    pub upgraded: bool,
    /// Nothing but cards of the level, wild or not.
    pub level_faces: bool,
    /// The first plain card is not of the level.
    pub plain_pair: bool,
    /// No plain card in the play.
    pub bare: bool,
    /// The wild cards left can still complete a bomb or straight flush.
    pub could_form: bool,
    /// Wild cards are left without plain ones.
    pub strands: bool,
    /// Exactly two cards of the level, wild or not, among at least five.
    pub level_pair: bool,
    /// Small cards left, if those are all that is left, each of another rank.
    pub small_left: usize,
    /// What is left has a straight.
    pub leaves_straight: bool,
    /// What is left has three single cards outside straights.
    pub leaves_singles: bool,
    /// Cards in the play that are single in the hand, those of the level excepted.
    pub lone: usize,
    /// Those of them up to the ten.
    pub small_lone: usize,
    /// The hand has such single cards.
    pub hand_lone: bool,
    /// The hand has such single cards up to the ten.
    pub hand_small_lone: bool,
    /// The hand has three single cards in a row.
    pub builds_straight: bool,
    /// Single cards left.
    pub singles_after: usize,
    /// Nothing is left but bombs.
    pub only_bombs_left: bool,
    /// Natural value of the highest card; wild cards and jokers are above.
    pub highest: u8,
    /// The first card is a joker.
    pub first_joker: bool,
    /// The first card is of the level.
    pub first_level: bool,
}

pub open spec fn level_plain(ctx: RuleContext) -> spec_fn(Card) -> bool {
    |c: Card| c.rank == level_rank(ctx.hand_level) && !wild(c, ctx)
}

pub open spec fn own_test(play: Seq<Card>, hand: Seq<Symbol>, ctx: RuleContext, n: int) -> spec_fn(
    int,
) -> bool {
    |v: int| own_count(play, hand, ctx, v) == n
}

pub open spec fn own_any(play: Seq<Card>, hand: Seq<Symbol>, ctx: RuleContext) -> spec_fn(
    int,
) -> bool {
    |v: int| own_count(play, hand, ctx, v) > 0
}

/// Five cards with one wild card and plain cards of two ranks.
pub open spec fn one_wild_of_five(play: Seq<Card>, hand: Seq<Symbol>, ctx: RuleContext) -> bool {
    play.len() == 5 && wilds(play, ctx) == 1 && values_from(2, own_any(play, hand, ctx)) == 2
}

/// A full house whose triple is a pair with a wild card.
pub open spec fn wild_makes_triple(play: Seq<Card>, hand: Seq<Symbol>, ctx: RuleContext) -> bool {
    one_wild_of_five(play, hand, ctx) && values_from(2, own_test(play, hand, ctx, 2)) == 2
}

/// A full house whose pair is a single with a wild card.
pub open spec fn wild_makes_pair(play: Seq<Card>, hand: Seq<Symbol>, ctx: RuleContext) -> bool {
    one_wild_of_five(play, hand, ctx) && values_from(2, own_test(play, hand, ctx, 3)) == 1
        && values_from(2, own_test(play, hand, ctx, 1)) == 1
}

pub open spec fn plain_card_at(ctx: RuleContext, v: int) -> spec_fn(Card) -> bool {
    |c: Card| plain_at(ctx, v)(Symbol::Known(c))
}

/// Wild cards on top of four or more plain cards of one rank, and nothing else.
pub open spec fn wild_on_bomb(play: Seq<Card>, ctx: RuleContext) -> bool {
    wilds(play, ctx) > 0 && exists|v: int|
        2 <= v <= 14 && v != natural(level_rank(ctx.hand_level)) && #[trigger] tally(
            play,
            plain_card_at(ctx, v),
        ) >= 4 && tally(play, plain_card_at(ctx, v)) + wilds(play, ctx) == play.len()
}

pub open spec fn all_level(play: Seq<Card>, ctx: RuleContext) -> bool {
    forall|i: int| 0 <= i < play.len() ==> (#[trigger] play[i]).rank == level_rank(ctx.hand_level)
}

/// The first plain card from place `i` on.
pub open spec fn first_plain(play: Seq<Card>, ctx: RuleContext, i: int) -> Option<Rank>
    decreases play.len() - i,
{
    if i < 0 || i >= play.len() {
        None
    } else if plain(Symbol::Known(play[i]), ctx) {
        Some(play[i].rank)
    } else {
        first_plain(play, ctx, i + 1)
    }
}

/// The first plain card is not of the level.
pub open spec fn plain_off_level(play: Seq<Card>, ctx: RuleContext) -> bool {
    match first_plain(play, ctx, 0) {
        Some(rank) => rank != level_rank(ctx.hand_level),
        None => false,
    }
}

pub open spec fn rank_symbol(rank: Rank) -> spec_fn(Symbol) -> bool {
    |s: Symbol| s is Known && s->Known_0.rank == rank
}

/// Whether the card at place `i` stays in the hand if a play takes the first cards of its
/// ranks.
pub open spec fn rank_stays(hand: Seq<Symbol>, play: Seq<Card>, i: int) -> bool {
    hand[i] is Known && tally(hand.take(i), rank_symbol(hand[i]->Known_0.rank)) >= count_rank(
        play,
        hand[i]->Known_0.rank,
    )
}

/// What stays of the first `n` cards of a hand, rank by rank.
pub open spec fn ranks_left(hand: Seq<Symbol>, play: Seq<Card>, n: int) -> Seq<Card>
    decreases n,
{
    if n <= 0 {
        Seq::empty()
    } else if rank_stays(hand, play, n - 1) {
        ranks_left(hand, play, n - 1).push(hand[n - 1]->Known_0)
    } else {
        ranks_left(hand, play, n - 1)
    }
}

/// A plain card from two to ten.
pub open spec fn small_plain(card: Card, ctx: RuleContext) -> bool {
    plain(Symbol::Known(card), ctx) && natural(card.rank) <= 10
}

/// Three or more small plain cards of different ranks.
pub open spec fn small_singles_only(left: Seq<Card>, ctx: RuleContext) -> bool {
    &&& left.len() >= 3
    &&& forall|i: int| 0 <= i < left.len() ==> small_plain(#[trigger] left[i], ctx)
    &&& forall|i: int, j: int|
        0 <= i < j < left.len() ==> (#[trigger] left[i]).rank != (#[trigger] left[j]).rank
}

/// Nothing but groups of four or more equal cards.
pub open spec fn bombs_only(left: Seq<Card>) -> bool {
    forall|i: int|
        0 <= i < left.len() ==> (#[trigger] left[i]).suit != Suit::Joker && count_rank(
            left,
            left[i].rank,
        ) >= 4
}

/// Cards that are single in the hand, those of the level excepted, up to a slot.
pub open spec fn lone_card(hand: Seq<Symbol>, ctx: RuleContext, up_to: int) -> spec_fn(Card) -> bool {
    |c: Card|
        plain(Symbol::Known(c), ctx) && c.rank != level_rank(ctx.hand_level) && plain_count(
            hand,
            ctx,
            natural(c.rank),
        ) == 1 && slot(c.rank) <= up_to
}

/// The hand has a single card, one of the level excepted, up to a slot.
pub open spec fn has_lone(hand: Seq<Symbol>, ctx: RuleContext, up_to: int) -> bool {
    exists|v: int|
        2 <= v <= 14 && v != natural(level_rank(ctx.hand_level)) && #[trigger] plain_count(
            hand,
            ctx,
            v,
        ) == 1 && slot(rank_at(v)) <= up_to
}

/// Whether single cards from value `v` on make three in a row, after `run` of them just
/// before. A wild card next to the single card of its rank starts the row anew.
pub open spec fn three_in_row(hand: Seq<Symbol>, ctx: RuleContext, v: int, run: int) -> bool
    decreases 15 - v,
{
    if v > 14 {
        false
    } else if plain_count(hand, ctx, v) != 1 {
        three_in_row(hand, ctx, v + 1, 0)
    } else if run + 1 >= 3 {
        true
    } else if faces_held(hand, v) >= 2 {
        three_in_row(hand, ctx, v + 1, 1)
    } else {
        three_in_row(hand, ctx, v + 1, run + 1)
    }
}

/// Plain cards of the hand that are single in it.
pub open spec fn own_single(hand: Seq<Symbol>, ctx: RuleContext) -> spec_fn(Card) -> bool {
    |c: Card|
        own_at(hand, ctx, natural(c.rank))(c) && plain_count(hand, ctx, natural(c.rank)) == 1
}

/// Natural value of a card, with wild cards and jokers above the ace.
pub open spec fn height(card: Card, ctx: RuleContext) -> int {
    if card.suit == Suit::Joker {
        16
    } else if wild(card, ctx) {
        15
    } else {
        natural(card.rank)
    }
}

/// The greatest height in a play.
pub open spec fn top_height(play: Seq<Card>, ctx: RuleContext) -> int
    decreases play.len(),
{
    if play.len() == 0 {
        0
    } else {
        let front = top_height(play.drop_last(), ctx);
        if height(play.last(), ctx) > front {
            height(play.last(), ctx)
        } else {
            front
        }
    }
}

/// The split penalty, lifted where a bomb may be broken up and raised where it may not.
pub open spec fn split_cost(
    play: Seq<Card>,
    s: Situation,
    kind: CombinationKind,
    rules: SplitRules,
) -> u32 {
    let raw = split_from(play, s.hand, s.ctx, kind, rules, 2);
    let verdict = split_verdict(play, s.hand, kind, s.hand.len() as int);
    if kind is Bomb {
        raw
    } else if verdict == BombSplitVerdict::Exempt && raw >= BANNED {
        0
    } else if verdict == BombSplitVerdict::Banned {
        BANNED
    } else {
        raw
    }
}

pub open spec fn is_joker_card() -> spec_fn(Card) -> bool {
    |c: Card| c.suit == Suit::Joker
}

/// All there is to say about a play in a situation.
pub open spec fn facts_of(
    s: Situation,
    play: Seq<Card>,
    kind: CombinationKind,
    rules: SplitRules,
) -> PlayFacts {
    let rest = leftover(s.hand, play);
    let kept = ranks_left(s.hand, play, s.hand.len() as int);
    let singles = singles_count(s.hand, s.ctx) as int;
    let gone = tally(play, own_single(s.hand, s.ctx)) as int;
    PlayFacts {
        held: s.hand.len() as usize,
        count: play.len() as usize,
        split: split_cost(play, s, kind, rules),
        split_banned: split_verdict(play, s.hand, kind, s.hand.len() as int)
            == BombSplitVerdict::Banned,
        wilds: wilds(play, s.ctx) as usize,
        level_cards: tally(play, level_plain(s.ctx)) as usize,
        has_joker: tally(play, is_joker_card()) > 0,
        bombs: bomb_count(s.hand, s.ctx) as usize,
        bomb_stays: kind is Bomb && bomb_stays(rest, s.ctx),
        plain_bomb_stays: kind is Bomb && bomb_count(rest, s.ctx) > 0,
        endgame: s.endgame(),
        partner_left: s.partner_left() as usize,
        min_opponent: s.min_opponent() as usize,
        wild_triple: wild_makes_triple(play, s.hand, s.ctx),
        wild_pair: wild_makes_pair(play, s.hand, s.ctx),
        upgraded: wild_on_bomb(play, s.ctx),
        level_faces: all_level(play, s.ctx),
        plain_pair: plain_off_level(play, s.ctx),
        bare: first_plain(play, s.ctx, 0) is None,
        could_form: can_form_bomb(rest, s.ctx),
        strands: only_wild_left(rest, s.ctx),
        level_pair: play.len() >= 5 && count_rank(play, level_rank(s.ctx.hand_level)) == 2,
        small_left: if small_singles_only(kept, s.ctx) {
            kept.len() as usize
        } else {
            0
        },
        leaves_straight: straights_and_singles(rest, s.ctx).0 > 0,
        leaves_singles: straights_and_singles(rest, s.ctx).1 >= 3,
        lone: tally(play, lone_card(s.hand, s.ctx, 17)) as usize,
        small_lone: tally(play, lone_card(s.hand, s.ctx, 10)) as usize,
        hand_lone: has_lone(s.hand, s.ctx, 17),
        hand_small_lone: has_lone(s.hand, s.ctx, 10),
        builds_straight: singles >= 3 && three_in_row(s.hand, s.ctx, 2, 0),
        singles_after: (if singles > gone {
            singles - gone
        } else {
            0
        }) as usize,
        only_bombs_left: bombs_only(kept),
        highest: top_height(play, s.ctx) as u8,
        first_joker: play.len() > 0 && play[0].suit == Suit::Joker,
        first_level: play.len() > 0 && play[0].rank == level_rank(s.ctx.hand_level),
    }
}

fn count_values(counts: &Vec<usize>, n: usize, Ghost(f): Ghost<spec_fn(int) -> nat>) -> (k: usize)
    requires
        counts@.len() == 15,
        forall|v: int| 2 <= v <= 14 ==> #[trigger] counts@[v] == f(v),
    ensures
        k == values_from(2, |v: int| f(v) == n),
{
    let ghost test = |v: int| f(v) == n;
    let mut k: usize = 0;
    let mut v: usize = 2;
    while v <= 14
        invariant
            2 <= v <= 15,
            counts@.len() == 15,
            forall|v: int| 2 <= v <= 14 ==> #[trigger] counts@[v] == f(v),
            test == (|v: int| f(v) == n),
            k <= v - 2,
            k + values_from(v as int, test) == values_from(2, test),
        decreases 15 - v,
    {
        if counts[v] == n {
            k = k + 1;
        }
        v = v + 1;
    }
    k
}

/// Values that are and values that are not there make up all thirteen.
proof fn lemma_values_complement(v: int, f: spec_fn(int) -> nat)
    requires
        v <= 15,
    ensures
        values_from(v, |w: int| f(w) > 0) + values_from(v, |w: int| f(w) == 0) == 15 - v,
    decreases 15 - v,
{
    if v < 15 {
        lemma_values_complement(v + 1, f);
    }
}

proof fn lemma_values_same(v: int, f: spec_fn(int) -> bool, g: spec_fn(int) -> bool)
    requires
        forall|w: int| #[trigger] f(w) == g(w),
    ensures
        values_from(v, f) == values_from(v, g),
    decreases 15 - v,
{
    if v <= 14 {
        assert(f(v) == g(v));
        lemma_values_same(v + 1, f, g);
    }
}

/// Whether a full house has a pair with a wild card for its triple, or a single with a wild
/// card for its pair.
pub fn fh_wild_shape(play: &[Card], hand: &[Symbol], ctx: RuleContext) -> (shape: (bool, bool))
    ensures
        shape.0 == wild_makes_triple(play@, hand@, ctx),
        shape.1 == wild_makes_pair(play@, hand@, ctx),
{
    if play.len() != 5 || count_wilds(play, ctx) != 1 {
        return (false, false);
    }
    let counts = count_own(play, hand, ctx);
    let ghost f = |v: int| own_count(play@, hand@, ctx, v);
    let none: usize = count_values(&counts, 0, Ghost(f));
    let ones: usize = count_values(&counts, 1, Ghost(f));
    let twos: usize = count_values(&counts, 2, Ghost(f));
    let threes: usize = count_values(&counts, 3, Ghost(f));
    proof {
        lemma_values_complement(2, f);
        lemma_values_same(2, |w: int| f(w) > 0, own_any(play@, hand@, ctx));
        lemma_values_same(2, |v: int| f(v) == 1usize, own_test(play@, hand@, ctx, 1));
        lemma_values_same(2, |v: int| f(v) == 2usize, own_test(play@, hand@, ctx, 2));
        lemma_values_same(2, |v: int| f(v) == 3usize, own_test(play@, hand@, ctx, 3));
        lemma_values_same(2, |v: int| f(v) == 0usize, |w: int| f(w) == 0);
    }
    (none == 11 && twos == 2, none == 11 && threes == 1 && ones == 1)
}

fn tops_a_bomb(play: &[Card], ctx: RuleContext) -> (b: bool)
    ensures
        b == wild_on_bomb(play@, ctx),
{
    let w: usize = count_wilds(play, ctx);
    if w == 0 {
        return false;
    }
    let level: u8 = natural_of(ctx.hand_level.to_rank());
    let mut v: u8 = 2;
    while v <= 14
        invariant
            2 <= v <= 15,
            w == wilds(play@, ctx),
            w > 0,
            w <= play@.len(),
            level == natural(level_rank(ctx.hand_level)),
            forall|u: int|
                2 <= u < v && u != level ==> !(#[trigger] tally(play@, plain_card_at(ctx, u)) >= 4
                    && tally(play@, plain_card_at(ctx, u)) + w == play@.len()),
        decreases 15 - v,
    {
        let test = |c: Card| -> (b: bool)
            ensures
                b == plain_card_at(ctx, v as int)(c),
            { !is_wild(c, ctx) && c.suit != Suit::Joker && natural_of(c.rank) == v };
        let n: usize = count_where(play, test, Ghost(plain_card_at(ctx, v as int)));
        if v != level && n >= 4 && n == play.len() - w {
            assert(tally(play@, plain_card_at(ctx, v as int)) >= 4);
            return true;
        }
        v = v + 1;
    }
    false
}

fn find_first_plain(play: &[Card], ctx: RuleContext) -> (rank: Option<Rank>)
    ensures
        rank == first_plain(play@, ctx, 0),
{
    let mut i: usize = 0;
    while i < play.len()
        invariant
            i <= play@.len(),
            first_plain(play@, ctx, 0) == first_plain(play@, ctx, i as int),
        decreases play@.len() - i,
    {
        if !is_wild(play[i], ctx) && play[i].suit != Suit::Joker {
            return Some(play[i].rank);
        }
        i = i + 1;
    }
    None
}

fn count_rank_before(hand: &[Symbol], i: usize, rank: Rank) -> (n: usize)
    requires
        i <= hand@.len(),
    ensures
        n == tally(hand@.take(i as int), rank_symbol(rank)),
{
    let mut n: usize = 0;
    assert(hand@.take(0) =~= Seq::<Symbol>::empty());
    for j in 0..i
        invariant
            i <= hand@.len(),
            n <= j,
            n == tally(hand@.take(j as int), rank_symbol(rank)),
    {
        proof {
            lemma_tally_step(hand@, rank_symbol(rank), j as int);
        }
        let symbol = hand[j];
        if let Symbol::Known(card) = symbol {
            if card.rank == rank {
                n = n + 1;
            }
        }
    }
    n
}

fn take_ranks(hand: &[Symbol], play: &[Card]) -> (kept: Vec<Card>)
    ensures
        kept@ == ranks_left(hand@, play@, hand@.len() as int),
{
    let mut kept: Vec<Card> = Vec::new();
    for i in 0..hand.len()
        invariant
            kept@ == ranks_left(hand@, play@, i as int),
    {
        let symbol = hand[i];
        if let Symbol::Known(card) = symbol {
            let used: usize = number_of_rank(play, card.rank);
            if used == 0 || count_rank_before(hand, i, card.rank) >= used {
                kept.push(card);
            }
        }
    }
    kept
}

fn has_small_singles_only(kept: &Vec<Card>, ctx: RuleContext) -> (b: bool)
    ensures
        b == small_singles_only(kept@, ctx),
{
    if kept.len() < 3 {
        return false;
    }
    for i in 0..kept.len()
        invariant
            forall|x: int| 0 <= x < i ==> small_plain(#[trigger] kept@[x], ctx),
            forall|x: int, y: int|
                0 <= x < y < i ==> (#[trigger] kept@[x]).rank != (#[trigger] kept@[y]).rank,
    {
        let card = kept[i];
        if is_wild(card, ctx) || card.suit == Suit::Joker || natural_of(card.rank) > 10 {
            assert(!small_plain(kept@[i as int], ctx));
            return false;
        }
        for j in 0..i
            invariant
                i < kept@.len(),
                card == kept@[i as int],
                forall|x: int| 0 <= x < j ==> (#[trigger] kept@[x]).rank != card.rank,
        {
            if kept[j].rank == card.rank {
                assert(kept@[j as int].rank == kept@[i as int].rank);
                return false;
            }
        }
    }
    true
}

fn has_bombs_only(kept: &Vec<Card>) -> (b: bool)
    ensures
        b == bombs_only(kept@),
{
    for i in 0..kept.len()
        invariant
            forall|x: int|
                0 <= x < i ==> (#[trigger] kept@[x]).suit != Suit::Joker && count_rank(
                    kept@,
                    kept@[x].rank,
                ) >= 4,
    {
        if kept[i].suit == Suit::Joker || number_of_rank(kept.as_slice(), kept[i].rank) < 4 {
            assert(!(kept@[i as int].suit != Suit::Joker && count_rank(
                kept@,
                kept@[i as int].rank,
            ) >= 4));
            return false;
        }
    }
    true
}

fn count_lone(play: &[Card], p: &PlayContext, up_to: u8) -> (n: usize)
    requires
        p.wf(),
    ensures
        n == tally(play@, lone_card(p@.hand, p@.ctx, up_to as int)),
{
    let ctx = p.ctx;
    let level = ctx.hand_level.to_rank();
    let ghost test = lone_card(p@.hand, p@.ctx, up_to as int);
    let mut n: usize = 0;
    assert(play@.take(0) =~= Seq::<Card>::empty());
    for i in 0..play.len()
        invariant
            p.wf(),
            ctx == p@.ctx,
            level == level_rank(ctx.hand_level),
            test == lone_card(p@.hand, p@.ctx, up_to as int),
            n <= i,
            n == tally(play@.take(i as int), test),
    {
        proof {
            lemma_tally_step(play@, test, i as int);
        }
        let card = play[i];
        let value: usize = natural_of(card.rank) as usize;
        if !is_wild(card, ctx) && card.suit != Suit::Joker && card.rank != level && rank_slot(
            card.rank,
        ) <= up_to {
            if value >= 2 {
                if p.combos.counts[value] == 1 {
                    n = n + 1;
                }
            } else if joker_faced(p, card) {
                n = n + 1;
            }
        }
    }
    assert(play@.take(play@.len() as int) =~= play@);
    n
}

/// Whether exactly one plain card of the hand has no natural value; none has in a deck.
fn joker_faced(p: &PlayContext, card: Card) -> (b: bool)
    requires
        p.wf(),
        natural(card.rank) == 0,
    ensures
        b == (plain_count(p@.hand, p@.ctx, 0) == 1),
{
    proof {
        lemma_no_plain_zero(p@.hand, p@.ctx);
    }
    false
}

proof fn lemma_no_plain_zero(hand: Seq<Symbol>, ctx: RuleContext)
    requires
        hand_ok(hand),
    ensures
        plain_count(hand, ctx, 0) == 0,
{
    lemma_tally_positive(hand, plain_at(ctx, 0));
    if plain_count(hand, ctx, 0) > 0 {
        let i = choose|i: int| 0 <= i < hand.len() && plain_at(ctx, 0)(#[trigger] hand[i]);
        assert(card_ok(hand[i]->Known_0));
    }
}

fn count_own_singles(play: &[Card], p: &PlayContext) -> (n: usize)
    requires
        p.wf(),
    ensures
        n == tally(play@, own_single(p@.hand, p@.ctx)),
        n <= play@.len(),
{
    let ghost test = own_single(p@.hand, p@.ctx);
    let mut n: usize = 0;
    assert(play@.take(0) =~= Seq::<Card>::empty());
    for i in 0..play.len()
        invariant
            p.wf(),
            test == own_single(p@.hand, p@.ctx),
            n <= i,
            n == tally(play@.take(i as int), test),
    {
        proof {
            lemma_tally_step(play@, test, i as int);
            lemma_no_plain_zero(p@.hand, p@.ctx);
        }
        let card = play[i];
        let value: usize = plain_value(Symbol::Known(card), p.ctx) as usize;
        if value >= 2 && p.combos.counts[value] == 1 && count_symbol(p.my_hand.as_slice(), card)
            > 0 {
            n = n + 1;
        }
    }
    assert(play@.take(play@.len() as int) =~= play@);
    n
}

fn any_lone(p: &PlayContext, up_to: u8) -> (b: bool)
    requires
        p.wf(),
    ensures
        b == has_lone(p@.hand, p@.ctx, up_to as int),
{
    let level: u8 = natural_of(p.ctx.hand_level.to_rank());
    let mut v: u8 = 2;
    while v <= 14
        invariant
            2 <= v <= 15,
            p.wf(),
            level == natural(level_rank(p@.ctx.hand_level)),
            forall|u: int|
                2 <= u < v && u != level && slot(rank_at(u)) <= up_to ==> #[trigger] plain_count(
                    p@.hand,
                    p@.ctx,
                    u,
                ) != 1,
        decreases 15 - v,
    {
        if v != level && p.combos.counts[v as usize] == 1 && rank_slot(rank_from_value(v))
            <= up_to {
            assert(plain_count(p@.hand, p@.ctx, v as int) == 1);
            return true;
        }
        v = v + 1;
    }
    false
}

fn makes_three_in_row(p: &PlayContext) -> (b: bool)
    requires
        p.wf(),
    ensures
        b == three_in_row(p@.hand, p@.ctx, 2, 0),
{
    let mut run: usize = 0;
    let mut v: usize = 2;
    while v <= 14
        invariant
            2 <= v <= 15,
            p.wf(),
            run < 3,
            three_in_row(p@.hand, p@.ctx, 2, 0) == three_in_row(
                p@.hand,
                p@.ctx,
                v as int,
                run as int,
            ),
        decreases 15 - v,
    {
        if p.combos.counts[v] != 1 {
            run = 0;
        } else if run + 1 >= 3 {
            return true;
        } else {
            let face = |s: Symbol| -> (b: bool)
                ensures
                    b == face_symbol_at(v as int)(s),
                {
                    match s {
                        Symbol::Known(card) => natural_of(card.rank) as usize == v,
                        _ => false,
                    }
                };
            let held: usize = count_where(
                p.my_hand.as_slice(),
                face,
                Ghost(face_symbol_at(v as int)),
            );
            if held >= 2 {
                run = 1;
            } else {
                run = run + 1;
            }
        }
        v = v + 1;
    }
    false
}

fn find_top_height(play: &[Card], ctx: RuleContext) -> (h: u8)
    ensures
        h == top_height(play@, ctx),
        h <= 16,
{
    let mut h: u8 = 0;
    assert(play@.take(0) =~= Seq::<Card>::empty());
    for i in 0..play.len()
        invariant
            h <= 16,
            h == top_height(play@.take(i as int), ctx),
    {
        assert(play@.take(i + 1).drop_last() =~= play@.take(i as int));
        let card = play[i];
        let own: u8 = if card.suit == Suit::Joker {
            16
        } else if is_wild(card, ctx) {
            15
        } else {
            natural_of(card.rank)
        };
        if own > h {
            h = own;
        }
    }
    assert(play@.take(play@.len() as int) =~= play@);
    h
}

fn only_level(play: &[Card], ctx: RuleContext) -> (b: bool)
    ensures
        b == all_level(play@, ctx),
{
    let level = ctx.hand_level.to_rank();
    for i in 0..play.len()
        invariant
            level == level_rank(ctx.hand_level),
            forall|j: int| 0 <= j < i ==> (#[trigger] play@[j]).rank == level,
    {
        if play[i].rank != level {
            return false;
        }
    }
    true
}

/// All there is to say about a play.
pub fn study(play: &[Card], kind: CombinationKind, p: &PlayContext, rules: SplitRules) -> (facts:
    PlayFacts)
    requires
        p.wf(),
    ensures
        facts == facts_of(p@, play@, kind, rules),
{
    let ctx = p.ctx;
    let hand = p.my_hand.as_slice();
    let held: usize = hand.len();
    let level = ctx.hand_level.to_rank();
    let raw: u32 = split_penalty(play, hand, &p.combos, ctx, kind, rules);
    let verdict = classify_bomb_split(play, hand, kind, held);
    let is_bomb = match kind {
        CombinationKind::Bomb(_) => true,
        CombinationKind::Ordinary(_) => false,
    };
    let split: u32 = if is_bomb {
        raw
    } else if verdict == BombSplitVerdict::Exempt && raw >= BANNED {
        0
    } else if verdict == BombSplitVerdict::Banned {
        BANNED
    } else {
        raw
    };
    let level_test = |c: Card| -> (b: bool)
        ensures
            b == level_plain(ctx)(c),
        { c.rank == level && !is_wild(c, ctx) };
    let joker_test = |c: Card| -> (b: bool)
        ensures
            b == is_joker_card()(c),
        { c.suit == Suit::Joker };
    let level_cards: usize = count_where(play, level_test, Ghost(level_plain(ctx)));
    let joker_cards: usize = count_where(play, joker_test, Ghost(is_joker_card()));
    let (wild_triple, wild_pair) = fh_wild_shape(play, hand, ctx);
    let plain_rank = find_first_plain(play, ctx);
    let rest = take_away(hand, play);
    let kept = take_ranks(hand, play);
    let (straights, singles) = sf_leftover_straights_and_singles(rest.as_slice(), ctx);
    let gone: usize = count_own_singles(play, p);
    let own: usize = p.combos.singles_count;
    proof {
        lemma_tally_bound(play@, own_single(p@.hand, p@.ctx));
    }
    PlayFacts {
        held,
        count: play.len(),
        split,
        split_banned: verdict == BombSplitVerdict::Banned,
        wilds: count_wilds(play, ctx),
        level_cards,
        has_joker: joker_cards > 0,
        bombs: p.combos.bomb_count,
        bomb_stays: is_bomb && still_has_bomb(rest.as_slice(), ctx),
        plain_bomb_stays: is_bomb && analyze_hand_combos(rest.as_slice(), ctx).bomb_count > 0,
        endgame: p.is_endgame,
        partner_left: p.teammate_remaining(),
        min_opponent: p.min_opp_remaining(),
        wild_triple,
        wild_pair,
        upgraded: tops_a_bomb(play, ctx),
        level_faces: only_level(play, ctx),
        plain_pair: match plain_rank {
            Some(rank) => rank != level,
            None => false,
        },
        bare: plain_rank.is_none(),
        could_form: wilds_could_form_bomb_or_sf(rest.as_slice(), ctx),
        strands: leftover_all_wild(rest.as_slice(), ctx),
        level_pair: play.len() >= 5 && number_of_rank(play, level) == 2,
        small_left: if has_small_singles_only(&kept, ctx) {
            kept.len()
        } else {
            0
        },
        leaves_straight: straights > 0,
        leaves_singles: singles >= 3,
        lone: count_lone(play, p, 17),
        small_lone: count_lone(play, p, 10),
        hand_lone: any_lone(p, 17),
        hand_small_lone: any_lone(p, 10),
        builds_straight: own >= 3 && makes_three_in_row(p),
        singles_after: if own > gone {
            own - gone
        } else {
            0
        },
        only_bombs_left: has_bombs_only(&kept),
        highest: find_top_height(play, ctx),
        first_joker: play.len() > 0 && play[0].suit == Suit::Joker,
        first_level: play.len() > 0 && play[0].rank == level,
    }
}

/// The height of a play is that of its highest card, jokers above wild cards and these above aces.
pub proof fn plays_are_as_high_as_their_highest_card(play: Seq<Card>, ctx: RuleContext)
    ensures
        forall|i: int|
            0 <= i < play.len() ==> height(#[trigger] play[i], ctx) <= top_height(play, ctx),
        play.len() > 0 ==> exists|i: int|
            0 <= i < play.len() && (height(#[trigger] play[i], ctx) == top_height(play, ctx)
                || top_height(play, ctx) == 0),
        forall|a: Card, b: Card|
            a.suit == Suit::Joker && b.suit != Suit::Joker ==> #[trigger] height(a, ctx)
                > #[trigger] height(b, ctx),
        forall|a: Card, b: Card|
            wild(a, ctx) && b.suit != Suit::Joker && !wild(b, ctx) ==> #[trigger] height(a, ctx)
                > #[trigger] height(b, ctx),
    decreases play.len(),
{
    if play.len() > 0 {
        let front = play.drop_last();
        plays_are_as_high_as_their_highest_card(front, ctx);
        assert(play[play.len() - 1] == play.last());
        assert forall|i: int| 0 <= i < play.len() implies height(#[trigger] play[i], ctx)
            <= top_height(play, ctx) by {
            if i < front.len() {
                assert(front[i] == play[i]);
            }
        }
        if height(play.last(), ctx) > top_height(front, ctx) {
            assert(height(play[play.len() - 1], ctx) == top_height(play, ctx));
        } else if front.len() > 0 {
            let i = choose|i: int|
                0 <= i < front.len() && (height(#[trigger] front[i], ctx) == top_height(front, ctx)
                    || top_height(front, ctx) == 0);
            assert(play[i] == front[i]);
        } else {
            assert(top_height(play, ctx) == 0);
        }
    }
}

/// A play that breaks up a bomb against the rules is barred; what a bomb is broken up for with leave
/// costs nothing that breaking it up alone would; and a bomb itself pays as its groups say.
pub proof fn broken_bombs_cost(
    play: Seq<Card>,
    s: Situation,
    kind: CombinationKind,
    rules: SplitRules,
)
    ensures
        ({
            let verdict = split_verdict(play, s.hand, kind, s.hand.len() as int);
            let raw = split_from(play, s.hand, s.ctx, kind, rules, 2);
            let cost = split_cost(play, s, kind, rules);
            &&& !(kind is Bomb) && verdict == BombSplitVerdict::Banned ==> cost == 99999
            &&& !(kind is Bomb) && verdict == BombSplitVerdict::Exempt ==> cost == (if raw >= 99999 {
                0
            } else {
                raw
            })
            &&& !(kind is Bomb) && verdict == BombSplitVerdict::NotBreaking ==> cost == raw
            &&& kind is Bomb ==> cost == raw
        }),
{
}

/// Three ranks in a row, from value `l` on, each have one plain card.
pub open spec fn single_row(hand: Seq<Symbol>, ctx: RuleContext, l: int) -> bool {
    &&& plain_count(hand, ctx, l) == 1
    &&& plain_count(hand, ctx, l + 1) == 1
    &&& plain_count(hand, ctx, l + 2) == 1
}

proof fn lemma_three_in_row(hand: Seq<Symbol>, ctx: RuleContext, v: int, run: int)
    requires
        0 <= run <= 2,
        2 + run <= v,
        forall|u: int| v - run <= u < v ==> #[trigger] plain_count(hand, ctx, u) == 1,
    ensures
        three_in_row(hand, ctx, v, run) ==> exists|l: int|
            2 <= l <= 12 && #[trigger] single_row(hand, ctx, l),
        (exists|l: int| v - run <= l <= 12 && #[trigger] single_row(hand, ctx, l)) && (forall|u: int|
            2 <= u <= 14 ==> #[trigger] faces_held(hand, u) < 2 || plain_count(hand, ctx, u) != 1)
            ==> three_in_row(hand, ctx, v, run),
    decreases 15 - v,
{
    if v <= 14 {
        if plain_count(hand, ctx, v) != 1 {
            lemma_three_in_row(hand, ctx, v + 1, 0);
            assert forall|l: int| v - run <= l <= 12 && #[trigger] single_row(
                hand,
                ctx,
                l,
            ) implies l >= v + 1 by {
                assert(l != v && l + 1 != v && l + 2 != v);
            }
        } else if run + 1 >= 3 {
            assert(plain_count(hand, ctx, v - 2) == 1 && plain_count(hand, ctx, v - 1) == 1);
            assert(single_row(hand, ctx, v - 2));
        } else if faces_held(hand, v) >= 2 {
            lemma_three_in_row(hand, ctx, v + 1, 1);
        } else {
            lemma_three_in_row(hand, ctx, v + 1, run + 1);
        }
    }
}

/// Single cards make three in a row only where three ranks in a row each have one plain card, and
/// always do where no wild card is of one of the single ranks.
pub proof fn rows_are_of_single_cards(hand: Seq<Symbol>, ctx: RuleContext)
    ensures
        three_in_row(hand, ctx, 2, 0) ==> exists|l: int|
            2 <= l <= 12 && #[trigger] single_row(hand, ctx, l),
        (exists|l: int| 2 <= l <= 12 && #[trigger] single_row(hand, ctx, l)) && (forall|u: int|
            2 <= u <= 14 ==> #[trigger] faces_held(hand, u) < 2 || plain_count(hand, ctx, u) != 1)
            ==> three_in_row(hand, ctx, 2, 0),
{
    lemma_three_in_row(hand, ctx, 2, 0);
}

/// What is said of a play goes by the hand it comes from: how many cards there are and how many go,
/// who holds few, which cards go and what stays.
pub proof fn facts_go_by_the_hand(
    s: Situation,
    play: Seq<Card>,
    kind: CombinationKind,
    rules: SplitRules,
)
    requires
        s.hand.len() <= usize::MAX,
        play.len() <= s.hand.len(),
        s.left_at(partner_of(s.actor)) <= usize::MAX,
        s.left_at(first_opponent(s.actor)) <= usize::MAX,
    ensures
        ({
            let f = facts_of(s, play, kind, rules);
            let level = level_rank(s.ctx.hand_level);
            &&& f.held == s.hand.len()
            &&& f.count == play.len()
            &&& f.partner_left == s.left_at(partner_of(s.actor))
            &&& f.min_opponent == s.min_opponent()
            &&& f.endgame <==> s.hand.len() <= s.params.endgame_hand_count_threshold
            &&& f.strands <==> only_wild_left(leftover(s.hand, play), s.ctx)
            &&& f.could_form <==> can_form_bomb(leftover(s.hand, play), s.ctx)
            &&& f.bomb_stays <==> kind is Bomb && bomb_stays(leftover(s.hand, play), s.ctx)
            &&& f.plain_bomb_stays <==> kind is Bomb && bomb_count(leftover(s.hand, play), s.ctx) > 0
            &&& f.split_banned <==> split_verdict(play, s.hand, kind, s.hand.len() as int)
                == BombSplitVerdict::Banned
            &&& f.leaves_straight <==> straights_and_singles(leftover(s.hand, play), s.ctx).0 >= 1
            &&& f.leaves_singles <==> straights_and_singles(leftover(s.hand, play), s.ctx).1 > 2
            &&& f.level_faces <==> forall|i: int|
                0 <= i < play.len() ==> (#[trigger] play[i]).rank == level
            &&& f.level_pair <==> play.len() >= 5 && count_rank(play, level) == 2
            &&& play.len() > 0 ==> (f.first_joker <==> play[0].suit == Suit::Joker) && (f.first_level
                <==> play[0].rank == level)
            &&& f.builds_straight ==> three_in_row(s.hand, s.ctx, 2, 0)
            &&& f.builds_straight <== three_in_row(s.hand, s.ctx, 2, 0) && singles_count(
                s.hand,
                s.ctx,
            ) >= 3
            &&& f.wild_triple <==> wild_makes_triple(play, s.hand, s.ctx)
            &&& f.upgraded <==> wild_on_bomb(play, s.ctx)
        }),
{
}

/// Cards that are single in the hand are the plain ones, not of the level, of a rank with one plain
/// card; small ones run from the three to the ten.
pub proof fn lone_cards_are_single_in_the_hand(hand: Seq<Symbol>, ctx: RuleContext, c: Card)
    requires
        card_ok(c),
    ensures
        lone_card(hand, ctx, 17)(c) <==> c.suit != Suit::Joker && !wild(c, ctx) && c.rank
            != level_rank(ctx.hand_level) && plain_count(hand, ctx, natural(c.rank)) == 1,
        lone_card(hand, ctx, 10)(c) <==> lone_card(hand, ctx, 17)(c) && 3 <= natural(c.rank) <= 10,
        (exists|v: int|
            2 <= v <= 14 && v != natural(level_rank(ctx.hand_level)) && #[trigger] plain_count(
                hand,
                ctx,
                v,
            ) == 1) <==> has_lone(hand, ctx, 17),
        (exists|v: int|
            3 <= v <= 10 && v != natural(level_rank(ctx.hand_level)) && #[trigger] plain_count(
                hand,
                ctx,
                v,
            ) == 1) <==> has_lone(hand, ctx, 10),
{
    assert forall|v: int| 2 <= v <= 14 implies slot(#[trigger] rank_at(v)) <= 17 && (slot(rank_at(v))
        <= 10 <==> 3 <= v <= 10) by {}
}

/// Nothing but bombs is left where every card has three more of its rank and none is a joker; small
/// cards alone are left where there are three or more, all of different ranks up to the ten.
pub proof fn leftovers_are_told_apart(left: Seq<Card>, ctx: RuleContext, i: int, j: int)
    requires
        0 <= i < left.len(),
        0 <= j < left.len(),
        i != j,
    ensures
        count_rank(left, left[i].rank) < 4 || left[i].suit == Suit::Joker ==> !bombs_only(left),
        (forall|k: int|
            0 <= k < left.len() ==> (#[trigger] left[k]).suit != Suit::Joker && count_rank(
                left,
                left[k].rank,
            ) >= 4) ==> bombs_only(left),
        left.len() < 3 ==> !small_singles_only(left, ctx),
        left[i].rank == left[j].rank ==> !small_singles_only(left, ctx),
        natural(left[i].rank) > 10 || left[i].suit == Suit::Joker || wild(left[i], ctx)
            ==> !small_singles_only(left, ctx),
{
    assert(left[i] == left[i] && left[j] == left[j]);
    if small_singles_only(left, ctx) {
        assert(small_plain(left[i], ctx));
        if i < j {
            assert(left[i].rank != left[j].rank);
        } else {
            assert(left[j].rank != left[i].rank);
        }
    }
}

/// A full house with one wild card has two pairs, or three of a rank and a single, beside it.
pub proof fn full_houses_with_a_wild_card(play: Seq<Card>, hand: Seq<Symbol>, ctx: RuleContext)
    ensures
        wild_makes_triple(play, hand, ctx) || wild_makes_pair(play, hand, ctx) ==> play.len() == 5
            && wilds(play, ctx) == 1,
        wild_makes_triple(play, hand, ctx) ==> values_from(2, own_test(play, hand, ctx, 2)) == 2,
        wild_makes_pair(play, hand, ctx) ==> values_from(2, own_test(play, hand, ctx, 3)) == 1
            && values_from(2, own_test(play, hand, ctx, 1)) == 1,
        wild_on_bomb(play, ctx) ==> wilds(play, ctx) > 0 && play.len() >= 5,
{
}

/// What is counted of a play: its wild cards, plain cards of the level and jokers, and the cards of
/// it that are single in the hand, small ones among them; and of what it leaves the single cards,
/// bombs and small cards.
pub proof fn facts_count_cards(
    s: Situation,
    play: Seq<Card>,
    kind: CombinationKind,
    rules: SplitRules,
)
    requires
        s.hand.len() <= usize::MAX,
        play.len() <= s.hand.len(),
    ensures
        ({
            let f = facts_of(s, play, kind, rules);
            let kept = ranks_left(s.hand, play, s.hand.len() as int);
            let singles = singles_count(s.hand, s.ctx) as int;
            let gone = tally(play, own_single(s.hand, s.ctx)) as int;
            &&& f.wilds == wilds(play, s.ctx)
            &&& f.level_cards == tally(play, level_plain(s.ctx))
            &&& f.has_joker <==> tally(play, is_joker_card()) >= 1
            &&& f.lone == tally(play, lone_card(s.hand, s.ctx, 17))
            &&& f.small_lone == tally(play, lone_card(s.hand, s.ctx, 10))
            &&& f.hand_lone <==> has_lone(s.hand, s.ctx, 17)
            &&& f.hand_small_lone <==> has_lone(s.hand, s.ctx, 10)
            &&& f.only_bombs_left <==> bombs_only(kept)
            &&& !small_singles_only(kept, s.ctx) ==> f.small_left == 0
            &&& small_singles_only(kept, s.ctx) && kept.len() <= usize::MAX ==> f.small_left
                == kept.len()
            &&& gone <= singles <= usize::MAX ==> f.singles_after + gone == singles
            &&& gone > singles ==> f.singles_after == 0
            &&& bomb_count(s.hand, s.ctx) <= usize::MAX ==> f.bombs == bomb_count(s.hand, s.ctx)
            &&& f.bare <==> first_plain(play, s.ctx, 0) is None
            &&& f.plain_pair <==> (first_plain(play, s.ctx, 0) matches Some(rank) && rank
                != level_rank(s.ctx.hand_level))
            &&& 0 <= top_height(play, s.ctx) <= 255 ==> f.highest == top_height(play, s.ctx)
        }),
{
    lemma_tally_bound(play, wild_in(s.ctx));
    lemma_tally_bound(play, level_plain(s.ctx));
    lemma_tally_bound(play, lone_card(s.hand, s.ctx, 17));
    lemma_tally_bound(play, lone_card(s.hand, s.ctx, 10));
}

/// The first plain card of a play is the first that is neither wild nor a joker.
pub proof fn first_plain_card_is_found(play: Seq<Card>, ctx: RuleContext, i: int)
    requires
        0 <= i <= play.len(),
    ensures
        match first_plain(play, ctx, i) {
            Some(rank) => exists|k: int|
                i <= k < play.len() && (#[trigger] play[k]).rank == rank && !wild(play[k], ctx)
                    && play[k].suit != Suit::Joker,
            None => forall|k: int|
                i <= k < play.len() ==> wild(#[trigger] play[k], ctx) || play[k].suit == Suit::Joker,
        },
    decreases play.len() - i,
{
    if i < play.len() {
        first_plain_card_is_found(play, ctx, i + 1);
        assert(play[i] == play[i]);
    }
}

/// Plain cards of the level are those of its rank but the hearts.
pub proof fn level_cards_are_not_hearts(ctx: RuleContext, c: Card)
    ensures
        level_plain(ctx)(c) <==> c.rank == level_rank(ctx.hand_level) && c.suit != Suit::Hearts,
        is_joker_card()(c) <==> c.suit == Suit::Joker,
{
}

} // verus!
