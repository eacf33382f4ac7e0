//! Reading a hand: which of its symbols are plain cards, and how many there are of each.

use vstd::prelude::*;
use crate::cards::{
    Card, RuleContext, Suit, Symbol, card_ok, is_wild, lemma_named_is_symbol, natural, natural_of,
    symbols_named, wild,
};
use crate::tally::{lemma_tally_step, tally};

verus! {

/// A known card that is neither wild nor a joker.
pub open spec fn plain(symbol: Symbol, ctx: RuleContext) -> bool {
    match symbol {
        Symbol::Known(card) => !wild(card, ctx) && card.suit != Suit::Joker,
        _ => false,
    }
}

pub open spec fn is_wild_symbol(symbol: Symbol, ctx: RuleContext) -> bool {
    match symbol {
        Symbol::Known(card) => wild(card, ctx),
        _ => false,
    }
}

/// Plain cards of a natural value.
pub open spec fn plain_at(ctx: RuleContext, value: int) -> spec_fn(Symbol) -> bool {
    |s: Symbol| plain(s, ctx) && natural(s->Known_0.rank) == value
}

/// Number of plain cards of a natural value in a hand.
pub open spec fn plain_count(hand: Seq<Symbol>, ctx: RuleContext, value: int) -> nat {
    tally(hand, plain_at(ctx, value))
}

/// The plain cards of a natural value, in the order of the hand.
pub open spec fn plain_cards(hand: Seq<Symbol>, ctx: RuleContext, value: int) -> Seq<Card>
    decreases hand.len(),
{
    if hand.len() == 0 {
        Seq::empty()
    } else {
        let front = plain_cards(hand.drop_last(), ctx, value);
        if plain_at(ctx, value)(hand.last()) {
            front.push(hand.last()->Known_0)
        } else {
            front
        }
    }
}

/// Every card of the hand is one of the deck.
pub open spec fn hand_ok(hand: Seq<Symbol>) -> bool {
    forall|i: int|
        0 <= i < hand.len() ==> (#[trigger] hand[i] matches Symbol::Known(card) ==> card_ok(card))
}

/// Every card that a text names is one of the deck.
pub proof fn lemma_named_hand_ok(list: Seq<String>)
    ensures
        hand_ok(symbols_named(list)),
{
    assert forall|i: int| 0 <= i < list.len() implies (
    #[trigger] symbols_named(list)[i] matches Symbol::Known(card) ==> card_ok(card)) by {
        lemma_named_is_symbol(list[i]@);
    }
}

/// There are as many plain cards of a value as are counted, and each is one.
pub proof fn lemma_plain_cards(hand: Seq<Symbol>, ctx: RuleContext, value: int)
    ensures
        plain_cards(hand, ctx, value).len() == plain_count(hand, ctx, value),
        forall|i: int|
            0 <= i < plain_cards(hand, ctx, value).len() ==> plain_at(ctx, value)(
                Symbol::Known(#[trigger] plain_cards(hand, ctx, value)[i]),
            ) && hand.contains(Symbol::Known(plain_cards(hand, ctx, value)[i])),
    decreases hand.len(),
{
    if hand.len() > 0 {
        let front = hand.drop_last();
        lemma_plain_cards(front, ctx, value);
        let all = plain_cards(hand, ctx, value);
        assert forall|i: int| 0 <= i < all.len() implies plain_at(ctx, value)(
            Symbol::Known(#[trigger] all[i]),
        ) && hand.contains(Symbol::Known(all[i])) by {
            if i < plain_cards(front, ctx, value).len() {
                let c = plain_cards(front, ctx, value)[i];
                let j = front.index_of(Symbol::Known(c));
                assert(hand[j] == Symbol::Known(c));
            } else {
                assert(hand[hand.len() - 1] == Symbol::Known(all[i]));
            }
        }
    }
}

/// Plain cards of a hand belong to the deck.
pub proof fn lemma_plain_cards_ok(hand: Seq<Symbol>, ctx: RuleContext, value: int)
    requires
        hand_ok(hand),
    ensures
        forall|i: int|
            0 <= i < plain_cards(hand, ctx, value).len() ==> card_ok(
                #[trigger] plain_cards(hand, ctx, value)[i],
            ),
{
    lemma_plain_cards(hand, ctx, value);
    let all = plain_cards(hand, ctx, value);
    assert forall|i: int| 0 <= i < all.len() implies card_ok(#[trigger] all[i]) by {
        let j = hand.index_of(Symbol::Known(all[i]));
        assert(hand[j] == Symbol::Known(all[i]));
    }
}

/// The natural value of a plain card, 0 for anything else.
pub fn plain_value(symbol: Symbol, ctx: RuleContext) -> (value: u8)
    ensures
        plain(symbol, ctx) && card_ok(symbol->Known_0) ==> value == natural(symbol->Known_0.rank)
            && 2 <= value <= 14,
        !plain(symbol, ctx) ==> value == 0,
        plain(symbol, ctx) ==> value == natural(symbol->Known_0.rank),
        value <= 14,
{
    match symbol {
        Symbol::Known(card) => if !is_wild(card, ctx) && card.suit != Suit::Joker {
            natural_of(card.rank)
        } else {
            0
        },
        _ => 0,
    }
}

/// Whether a symbol is a wild card.
pub fn symbol_is_wild(symbol: Symbol, ctx: RuleContext) -> (b: bool)
    ensures
        b == is_wild_symbol(symbol, ctx),
{
    match symbol {
        Symbol::Known(card) => is_wild(card, ctx),
        _ => false,
    }
}

/// The plain cards of a hand at each natural value.
pub fn group_by_value(hand: &[Symbol], ctx: RuleContext) -> (groups: Vec<Vec<Card>>)
    ensures
        groups@.len() == 15,
        forall|v: int| 2 <= v <= 14 ==> (#[trigger] groups@[v])@ == plain_cards(hand@, ctx, v),
{
    let mut groups: Vec<Vec<Card>> = Vec::new();
    for v in 0..15
        invariant
            groups@.len() == v,
            forall|w: int| 0 <= w < v ==> (#[trigger] groups@[w])@ == Seq::<Card>::empty(),
    {
        let none: Vec<Card> = Vec::new();
        groups.push(none);
    }
    assert(hand@.take(0) =~= Seq::<Symbol>::empty());
    for i in 0..hand.len()
        invariant
            groups@.len() == 15,
            forall|v: int|
                2 <= v <= 14 ==> (#[trigger] groups@[v])@ == plain_cards(
                    hand@.take(i as int),
                    ctx,
                    v,
                ),
    {
        assert(hand@.take(i + 1).drop_last() =~= hand@.take(i as int));
        let value: usize = plain_value(hand[i], ctx) as usize;
        if value >= 2 {
            if let Symbol::Known(card) = hand[i] {
                groups[value].push(card);
            }
        }
    }
    assert(hand@.take(hand@.len() as int) =~= hand@);
    groups
}

/// The number of plain cards of a hand at each natural value.
pub fn count_plain(hand: &[Symbol], ctx: RuleContext) -> (counts: Vec<usize>)
    ensures
        counts@.len() == 15,
        forall|v: int| 2 <= v <= 14 ==> #[trigger] counts@[v] == plain_count(hand@, ctx, v),
        forall|v: int| 0 <= v <= 14 ==> #[trigger] counts@[v] <= hand@.len(),
{
    let mut counts: Vec<usize> = vec![0; 15];
    for i in 0..hand.len()
        invariant
            counts@.len() == 15,
            forall|v: int|
                2 <= v <= 14 ==> #[trigger] counts@[v] == plain_count(hand@.take(i as int), ctx, v),
            forall|v: int| 0 <= v <= 14 ==> #[trigger] counts@[v] <= i,
    {
        let value: usize = plain_value(hand[i], ctx) as usize;
        proof {
            assert forall|v: int| 2 <= v <= 14 implies #[trigger] plain_count(
                hand@.take(i + 1),
                ctx,
                v,
            ) == plain_count(hand@.take(i as int), ctx, v) + if plain_at(ctx, v)(
                hand@[i as int],
            ) {
                1nat
            } else {
                0nat
            } by {
                lemma_tally_step(hand@, plain_at(ctx, v), i as int);
            }
        }
        if value >= 2 {
            let n: usize = counts[value];
            counts[value] = n + 1;
        }
    }
    assert(hand@.take(hand@.len() as int) =~= hand@);
    counts
}

} // verus!
