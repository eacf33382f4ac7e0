//! What the wild cards of a play stand for.

use vstd::prelude::*;
use vstd::string::*;
use crate::cards::{
    Card, RuleContext, Suit, card_named, cards_named, is_wild, not_a_card, parse_card_symbol,
    parse_cards, wild,
};
use crate::tally::{count_where, lemma_tally_step, tally};
use crate::text::{decimal, push_decimal};

verus! {

/// Wild cards of a level.
pub open spec fn wild_in(ctx: RuleContext) -> spec_fn(Card) -> bool {
    |c: Card| wild(c, ctx)
}

/// How many cards are wild.
pub open spec fn wilds(cards: Seq<Card>, ctx: RuleContext) -> nat {
    tally(cards, wild_in(ctx))
}

/// There is one target for each wild card, and none is a joker.
pub open spec fn fits(cards: Seq<Card>, targets: Seq<Card>, ctx: RuleContext) -> bool {
    &&& wilds(cards, ctx) == targets.len()
    &&& forall|i: int| 0 <= i < targets.len() ==> (#[trigger] targets[i]).suit != Suit::Joker
}

/// The cards with the n-th wild card replaced by the n-th target.
pub open spec fn substituted(cards: Seq<Card>, targets: Seq<Card>, ctx: RuleContext) -> Seq<Card> {
    Seq::new(
        cards.len(),
        |i: int|
            if wild(cards[i], ctx) {
                targets[wilds(cards.take(i), ctx) as int]
            } else {
                cards[i]
            },
    )
}

/// Counts the wild cards.
pub fn count_wilds(cards: &[Card], ctx: RuleContext) -> (n: usize)
    ensures
        n == wilds(cards@, ctx),
        n <= cards@.len(),
{
    let test = |c: Card| -> (b: bool)
        ensures
            b == wild(c, ctx),
        { is_wild(c, ctx) };
    count_where(cards, test, Ghost(wild_in(ctx)))
}

/// A longer prefix holds at least as many wild cards.
pub proof fn lemma_wilds_prefix(cards: Seq<Card>, ctx: RuleContext, i: int)
    requires
        0 <= i <= cards.len(),
    ensures
        wilds(cards.take(i), ctx) <= wilds(cards, ctx),
    decreases cards.len() - i,
{
    if i < cards.len() {
        lemma_tally_step(cards, wild_in(ctx), i);
        lemma_wilds_prefix(cards, ctx, i + 1);
    } else {
        assert(cards.take(i) =~= cards);
    }
}

/// Replaces the wild cards by their targets; refuses targets that do not fit.
pub fn substitute(cards: &[Card], targets: &[Card], ctx: RuleContext) -> (shown: Option<Vec<Card>>)
    ensures
        match shown {
            Some(list) => fits(cards@, targets@, ctx) && list@ == substituted(
                cards@,
                targets@,
                ctx,
            ),
            None => !fits(cards@, targets@, ctx),
        },
{
    if count_wilds(cards, ctx) != targets.len() {
        return None;
    }
    for i in 0..targets.len()
        invariant
            forall|j: int| 0 <= j < i ==> (#[trigger] targets@[j]).suit != Suit::Joker,
    {
        if targets[i].suit == Suit::Joker {
            return None;
        }
    }
    let mut out: Vec<Card> = Vec::new();
    let mut next: usize = 0;
    for i in 0..cards.len()
        invariant
            wilds(cards@, ctx) == targets@.len(),
            next == wilds(cards@.take(i as int), ctx),
            out@ =~= substituted(cards@, targets@, ctx).take(i as int),
    {
        proof {
            lemma_tally_step(cards@, wild_in(ctx), i as int);
            lemma_wilds_prefix(cards@, ctx, i + 1);
        }
        if is_wild(cards[i], ctx) {
            out.push(targets[next]);
            next = next + 1;
        } else {
            out.push(cards[i]);
        }
    }
    assert(out@ =~= substituted(cards@, targets@, ctx));
    Some(out)
}

/// The cards that wild cards are to stand for, or a message about the first text that names
/// no card or a joker.
pub open spec fn targets_named(list: Seq<String>) -> Result<Seq<Card>, Seq<char>>
    decreases list.len(),
{
    if list.len() == 0 {
        Ok(Seq::empty())
    } else {
        match targets_named(list.drop_last()) {
            Err(message) => Err(message),
            Ok(front) => match card_named(list.last()@) {
                Some(card) => if card.suit == Suit::Joker {
                    Err("wild card cannot represent joker"@)
                } else {
                    Ok(front.push(card))
                },
                None => Err(not_a_card(list.last()@)),
            },
        }
    }
}

proof fn lemma_targets_named_prefix(list: Seq<String>, i: int)
    requires
        0 <= i <= list.len(),
        targets_named(list.take(i)) is Err,
    ensures
        targets_named(list) == targets_named(list.take(i)),
    decreases list.len() - i,
{
    if i < list.len() {
        assert(list.take(i + 1).drop_last() =~= list.take(i));
        lemma_targets_named_prefix(list, i + 1);
    } else {
        assert(list.take(i) =~= list);
    }
}

/// Message about a wrong number of targets.
pub open spec fn mismatch(expected: nat, got: nat) -> Seq<char> {
    "wildTargets length mismatch: expected "@ + decimal(expected) + ", got "@ + decimal(got)
}

/// What cards show once their wild cards stand for the targets, or why they cannot.
pub open spec fn resolution(
    cards: Seq<String>,
    targets: Seq<String>,
    ctx: RuleContext,
) -> Result<Seq<Card>, Seq<char>> {
    match cards_named(cards) {
        Err(message) => Err(message),
        Ok(own) => if wilds(own, ctx) != targets.len() {
            Err(mismatch(wilds(own, ctx), targets.len()))
        } else {
            match targets_named(targets) {
                Err(message) => Err(message),
                Ok(shown) => Ok(substituted(own, shown, ctx)),
            }
        },
    }
}

/// Resolving keeps the number of cards and every card that is not wild.
pub proof fn resolution_keeps_naturals(cards: Seq<String>, targets: Seq<String>, ctx: RuleContext)
    ensures
        match (cards_named(cards), resolution(cards, targets, ctx)) {
            (Ok(own), Ok(shown)) => shown.len() == own.len() && forall|i: int|
                0 <= i < own.len() && !wild(own[i], ctx) ==> #[trigger] shown[i] == own[i],
            _ => true,
        },
{
}

/// A wild card never shows a joker.
pub proof fn wild_never_shows_a_joker(cards: Seq<String>, targets: Seq<String>, ctx: RuleContext)
    ensures
        match (cards_named(cards), resolution(cards, targets, ctx)) {
            (Ok(own), Ok(shown)) => forall|i: int|
                0 <= i < own.len() && wild(own[i], ctx) ==> (#[trigger] shown[i]).suit
                    != Suit::Joker,
            _ => true,
        },
{
    if let (Ok(own), Ok(shown)) = (cards_named(cards), resolution(cards, targets, ctx)) {
        lemma_targets_are_no_jokers(targets);
        assert forall|i: int| 0 <= i < own.len() && wild(own[i], ctx) implies (
        #[trigger] shown[i]).suit != Suit::Joker by {
            lemma_tally_step(own, wild_in(ctx), i);
            lemma_wilds_prefix(own, ctx, i + 1);
        }
    }
}

proof fn lemma_targets_are_no_jokers(list: Seq<String>)
    ensures
        targets_named(list) matches Ok(shown) ==> shown.len() == list.len() && forall|i: int|
            0 <= i < shown.len() ==> (#[trigger] shown[i]).suit != Suit::Joker,
    decreases list.len(),
{
    if list.len() > 0 {
        lemma_targets_are_no_jokers(list.drop_last());
    }
}

fn parse_targets(list: &[String]) -> (cards: Result<Vec<Card>, String>)
    ensures
        match cards {
            Ok(c) => targets_named(list@) == Ok::<Seq<Card>, Seq<char>>(c@),
            Err(message) => targets_named(list@) == Err::<Seq<Card>, Seq<char>>(message@),
        },
{
    let mut out: Vec<Card> = Vec::new();
    assert(list@.take(0) =~= Seq::<String>::empty());
    for i in 0..list.len()
        invariant
            targets_named(list@.take(i as int)) == Ok::<Seq<Card>, Seq<char>>(out@),
    {
        assert(list@.take(i + 1).drop_last() =~= list@.take(i as int));
        match parse_card_symbol(list[i].as_str()) {
            Ok(card) => {
                if card.suit == Suit::Joker {
                    proof {
                        lemma_targets_named_prefix(list@, i + 1);
                    }
                    return Err("wild card cannot represent joker".to_owned());
                }
                out.push(card);
            },
            Err(message) => {
                proof {
                    lemma_targets_named_prefix(list@, i + 1);
                }
                return Err(message);
            },
        }
    }
    assert(list@.take(list@.len() as int) =~= list@);
    Ok(out)
}

pub struct WildcardResolver;

impl WildcardResolver {
    /// What cards show once their wild cards stand for the targets. There has to be one
    /// target for each wild card, and none may be a joker; two may share a rank.
    pub fn resolve(cards: &[String], wild_targets: Option<&[String]>, ctx: RuleContext) -> (shown:
        Result<Vec<Card>, String>)
        ensures
            match shown {
                Ok(list) => resolution(cards@, given(wild_targets), ctx) == Ok::<
                    Seq<Card>,
                    Seq<char>,
                >(list@),
                Err(message) => resolution(cards@, given(wild_targets), ctx) == Err::<
                    Seq<Card>,
                    Seq<char>,
                >(message@),
            },
    {
        let own = match parse_cards(cards) {
            Ok(list) => list,
            Err(message) => {
                return Err(message);
            },
        };
        let none: Vec<String> = Vec::new();
        let targets: &[String] = match wild_targets {
            Some(list) => list,
            None => none.as_slice(),
        };
        assert(targets@ =~= given(wild_targets));
        let expected: usize = count_wilds(own.as_slice(), ctx);
        if expected != targets.len() {
            let mut message = "wildTargets length mismatch: expected ".to_owned();
            push_decimal(&mut message, expected as u64);
            message.append(", got ");
            push_decimal(&mut message, targets.len() as u64);
            return Err(message);
        }
        let shown = match parse_targets(targets) {
            Ok(list) => list,
            Err(message) => {
                return Err(message);
            },
        };
        proof {
            lemma_targets_are_no_jokers(targets@);
        }
        match substitute(own.as_slice(), shown.as_slice(), ctx) {
            Some(list) => Ok(list),
            None => Err("wildTargets do not fit".to_owned()),
        }
    }
}

/// The targets of a play; none where it gives none.
pub open spec fn given(targets: Option<&[String]>) -> Seq<String> {
    match targets {
        Some(list) => list@,
        None => Seq::empty(),
    }
}

} // verus!
