//! A growing list of legal plays without repetitions.

use std::collections::HashSet;
use vstd::prelude::*;
use crate::beat_comparator::{BeatComparator, beats};
use crate::cards::{Card, Rank, RuleContext, Suit, card_ok, natural, natural_of};
use crate::combination_parser::{Combination, combination_of, combine};

verus! {

broadcast use vstd::std_specs::hash::group_hash_axioms;

/// Cards to play, what the wild ones among them stand for, and the combination they form.
#[derive(Debug)]
pub struct Move {
    pub cards: Vec<Card>,
    pub targets: Option<Vec<Card>>,
    pub combination: Combination,
}

/// The contents of a move, without the combination.
pub ghost struct Try {
    pub cards: Seq<Card>,
    pub targets: Option<Seq<Card>>,
}

impl View for Move {
    type V = Try;

    open spec fn view(&self) -> Try {
        try_of(self.cards, self.targets)
    }
}

pub open spec fn try_of(cards: Vec<Card>, targets: Option<Vec<Card>>) -> Try {
    Try {
        cards: cards@,
        targets: match targets {
            Some(list) => Some(list@),
            None => None,
        },
    }
}

/// The combination of each move is the one that its cards form.
pub open spec fn combined(list: Seq<Move>, ctx: RuleContext) -> bool {
    forall|i: int|
        0 <= i < list.len() ==> combination_of(
            (#[trigger] list[i])@.cards,
            list[i]@.targets,
            ctx,
        ) == Some(list[i].combination)
}

/// The contents of a list of moves.
pub open spec fn tries(list: Seq<Move>) -> Seq<Try> {
    list.map_values(|m: Move| m@)
}

/// Whether a play is a combination that may be played on `top`.
pub open spec fn legal(play: Try, ctx: RuleContext, top: Option<Combination>) -> bool {
    match combination_of(play.cards, play.targets, ctx) {
        Some(own) => match top {
            Some(other) => beats(other, own),
            None => true,
        },
        None => false,
    }
}

/// The list with a play at its end if that is legal and new.
pub open spec fn keep(
    list: Seq<Try>,
    play: Try,
    ctx: RuleContext,
    top: Option<Combination>,
) -> Seq<Try> {
    if legal(play, ctx, top) && !list.contains(play) {
        list.push(play)
    } else {
        list
    }
}

/// A play of at most ten cards of the deck, with targets only where there are wild cards.
pub open spec fn try_ok(play: Try) -> bool {
    &&& cards_ok(play.cards)
    &&& play.cards.len() <= 10
    &&& match play.targets {
        Some(list) => cards_ok(list) && 1 <= list.len() <= 10,
        None => true,
    }
}

pub open spec fn cards_ok(cards: Seq<Card>) -> bool {
    forall|i: int| 0 <= i < cards.len() ==> card_ok(#[trigger] cards[i])
}

/// A number from 1 to 54 for each card.
spec fn card_code(card: Card) -> int {
    match card.suit {
        Suit::Spades => natural(card.rank) - 1,
        Suit::Hearts => natural(card.rank) + 12,
        Suit::Diamonds => natural(card.rank) + 25,
        Suit::Clubs => natural(card.rank) + 38,
        Suit::Joker => if card.rank == Rank::RedJoker {
            53
        } else {
            54
        },
    }
}

/// The cards' numbers read as digits in base 55.
spec fn cards_code(cards: Seq<Card>) -> int
    decreases cards.len(),
{
    if cards.len() == 0 {
        0
    } else {
        cards_code(cards.drop_last()) * 55 + card_code(cards.last())
    }
}

spec fn power55(n: nat) -> int
    decreases n,
{
    if n == 0 {
        1
    } else {
        55 * power55((n - 1) as nat)
    }
}

/// A number that tells plays apart.
spec fn try_code(play: Try) -> int {
    cards_code(play.cards) * 253295162119140625 + match play.targets {
        Some(list) => cards_code(list),
        None => 0,
    }
}

proof fn lemma_power55(n: nat)
    requires
        n <= 10,
    ensures
        0 < power55(n) <= 253295162119140625,
{
    reveal_with_fuel(power55, 11);
}

proof fn lemma_cards_code_bound(cards: Seq<Card>)
    requires
        cards_ok(cards),
    ensures
        0 <= cards_code(cards) < power55(cards.len()),
        cards.len() > 0 ==> cards_code(cards) > 0,
    decreases cards.len(),
{
    if cards.len() > 0 {
        assert(cards_ok(cards.drop_last()));
        assert(card_ok(cards[cards.len() - 1]));
        lemma_cards_code_bound(cards.drop_last());
    }
}

proof fn lemma_cards_code_injective(a: Seq<Card>, b: Seq<Card>)
    requires
        cards_ok(a),
        cards_ok(b),
        cards_code(a) == cards_code(b),
    ensures
        a =~= b,
    decreases a.len(),
{
    lemma_cards_code_bound(a);
    lemma_cards_code_bound(b);
    if a.len() > 0 && b.len() > 0 {
        assert(cards_ok(a.drop_last()));
        assert(cards_ok(b.drop_last()));
        let x = a[a.len() - 1];
        let y = b[b.len() - 1];
        assert(card_ok(x) && card_ok(y));
        assert(0 < card_code(x) < 55 && 0 < card_code(y) < 55);
        assert(card_code(x) == card_code(y));
        assert(x == y);
        lemma_cards_code_injective(a.drop_last(), b.drop_last());
        assert(a =~= a.drop_last().push(x));
        assert(b =~= b.drop_last().push(y));
    }
}

proof fn lemma_try_code_injective(a: Try, b: Try)
    requires
        try_ok(a),
        try_ok(b),
        try_code(a) == try_code(b),
    ensures
        a == b,
{
    lemma_power55(a.cards.len());
    lemma_power55(b.cards.len());
    lemma_cards_code_bound(a.cards);
    lemma_cards_code_bound(b.cards);
    if let Some(list) = a.targets {
        lemma_power55(list.len());
        lemma_cards_code_bound(list);
    }
    if let Some(list) = b.targets {
        lemma_power55(list.len());
        lemma_cards_code_bound(list);
    }
    lemma_cards_code_injective(a.cards, b.cards);
    match (a.targets, b.targets) {
        (Some(x), Some(y)) => {
            lemma_cards_code_injective(x, y);
        },
        _ => {},
    }
}

fn code_card(card: Card) -> (code: u128)
    requires
        card_ok(card),
    ensures
        code == card_code(card),
        1 <= code <= 54,
{
    let value: u128 = natural_of(card.rank) as u128;
    match card.suit {
        Suit::Spades => value - 1,
        Suit::Hearts => value + 12,
        Suit::Diamonds => value + 25,
        Suit::Clubs => value + 38,
        Suit::Joker => if card.rank == Rank::RedJoker {
            53
        } else {
            54
        },
    }
}

fn code_cards(cards: &[Card]) -> (code: u128)
    requires
        cards_ok(cards@),
        cards@.len() <= 10,
    ensures
        code == cards_code(cards@),
        code < 253295162119140625,
{
    let mut code: u128 = 0;
    assert(cards@.take(0) =~= Seq::<Card>::empty());
    for i in 0..cards.len()
        invariant
            cards_ok(cards@),
            cards@.len() <= 10,
            code == cards_code(cards@.take(i as int)),
            code < 253295162119140625,
    {
        proof {
            assert(cards@.take(i + 1).drop_last() =~= cards@.take(i as int));
            lemma_cards_code_bound(cards@.take(i + 1));
            lemma_power55((i + 1) as nat);
        }
        code = code * 55 + code_card(cards[i]);
    }
    assert(cards@.take(cards@.len() as int) =~= cards@);
    code
}

/// The legal plays found so far.
pub struct PlaySet {
    moves: Vec<Move>,
    seen: HashSet<u128>,
    ctx: RuleContext,
    top: Option<Combination>,
}

impl PlaySet {
    /// The plays found so far, in order.
    pub closed spec fn list(&self) -> Seq<Try> {
        tries(self.moves@)
    }

    pub closed spec fn context(&self) -> RuleContext {
        self.ctx
    }

    pub closed spec fn to_beat(&self) -> Option<Combination> {
        self.top
    }

    /// The codes of the plays found so far are those that were seen.
    pub closed spec fn wf(&self) -> bool {
        &&& combined(self.moves@, self.ctx)
        &&& forall|i: int|
            0 <= i < self.moves@.len() ==> try_ok((#[trigger] self.moves@[i])@)
                && self.seen@.contains(try_code(self.moves@[i]@) as u128)
        &&& forall|code: u128| #[trigger]
            self.seen@.contains(code) ==> exists|i: int|
                0 <= i < self.moves@.len() && try_code((#[trigger] self.moves@[i])@) == code
    }

    /// No plays yet.
    pub fn new(ctx: RuleContext, top: Option<Combination>) -> (set: PlaySet)
        ensures
            set.wf(),
            set.list() == Seq::<Try>::empty(),
            set.context() == ctx,
            set.to_beat() == top,
    {
        let set = PlaySet { moves: Vec::new(), seen: HashSet::new(), ctx, top };
        assert(set.list() =~= Seq::<Try>::empty());
        set
    }

    /// The rules that the plays obey.
    pub fn rules(&self) -> (ctx: RuleContext)
        ensures
            ctx == self.context(),
    {
        self.ctx
    }

    /// Takes in a play if it is legal and new.
    pub fn offer(&mut self, cards: Vec<Card>, targets: Option<Vec<Card>>)
        requires
            old(self).wf(),
            try_ok(try_of(cards, targets)),
        ensures
            final(self).wf(),
            final(self).list() == keep(
                old(self).list(),
                try_of(cards, targets),
                old(self).context(),
                old(self).to_beat(),
            ),
            final(self).context() == old(self).context(),
            final(self).to_beat() == old(self).to_beat(),
    {
        let given: Option<&[Card]> = match &targets {
            Some(list) => Some(list.as_slice()),
            None => None,
        };
        let own = match combine(cards.as_slice(), given, self.ctx) {
            Some(c) => c,
            None => {
                return ;
            },
        };
        if let Some(other) = &self.top {
            if !BeatComparator::can_beat(other, &own) {
                return ;
            }
        }
        let play = Move { cards, targets, combination: own };
        let tail: u128 = match &play.targets {
            Some(list) => code_cards(list.as_slice()),
            None => 0,
        };
        let code: u128 = code_cards(play.cards.as_slice()) * 253295162119140625 + tail;
        assert(code == try_code(play@));
        let ghost before = self.list();
        if self.seen.insert(code) {
            proof {
                if before.contains(play@) {
                    let i = before.index_of(play@);
                    assert(self.moves@[i]@ == play@);
                }
            }
            self.moves.push(play);
            proof {
                assert(self.list() =~= before.push(play@));
                let m = self.moves@;
                assert(m[m.len() - 1] == play);
                assert forall|c: u128| #[trigger] self.seen@.contains(c) implies exists|i: int|
                    0 <= i < m.len() && try_code((#[trigger] m[i])@) == c by {
                    if c == code {
                        assert(try_code(m[m.len() - 1]@) == c);
                    } else {
                        let i = choose|i: int|
                            0 <= i < old(self).moves@.len() && try_code(
                                (#[trigger] old(self).moves@[i])@,
                            ) == c;
                        assert(m[i] == old(self).moves@[i]);
                    }
                }
            }
        } else {
            proof {
                let i = choose|i: int|
                    0 <= i < old(self).moves@.len() && try_code(
                        (#[trigger] old(self).moves@[i])@,
                    ) == code;
                lemma_try_code_injective(old(self).moves@[i]@, play@);
                assert(before[i] == play@);
                assert(self.seen@ =~= old(self).seen@);
            }
        }
    }

    /// The plays found.
    pub fn into_moves(self) -> (moves: Vec<Move>)
        requires
            self.wf(),
        ensures
            tries(moves@) == self.list(),
            combined(moves@, self.context()),
            forall|i: int| 0 <= i < moves@.len() ==> try_ok((#[trigger] moves@[i])@),
    {
        self.moves
    }
}

} // verus!
