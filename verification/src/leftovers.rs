//! What is left of a hand after a play, and what it is good for.

use vstd::prelude::*;
use crate::cards::{Card, RuleContext, Suit, Symbol, level_rank, natural, natural_of};
use crate::combination_parser::{combination_sought, combine};
use crate::hand_combos::{
    analyze_hand_combos, bomb_count, holds_at, holds_plain_at, values_from, wild_symbols,
};
use crate::hand_view::{count_plain, is_wild_symbol, plain_count, symbol_is_wild};
use crate::movegen::{is_symbol, suit_at};
use crate::tally::{copy_all, count_where, lemma_tally_step, tally};

verus! {

pub open spec fn same_card(card: Card) -> spec_fn(Card) -> bool {
    |c: Card| c == card
}

/// Whether the card at place `i` of a hand stays in it: a play takes the first copies.
pub open spec fn stays(hand: Seq<Symbol>, play: Seq<Card>, i: int) -> bool {
    match hand[i] {
        Symbol::Known(card) => tally(hand.take(i), is_symbol(card)) >= tally(
            play,
            same_card(card),
        ),
        _ => true,
    }
}

/// What is left of the first `n` cards of a hand after a play.
pub open spec fn left_of(hand: Seq<Symbol>, play: Seq<Card>, n: int) -> Seq<Symbol>
    decreases n,
{
    if n <= 0 {
        Seq::empty()
    } else {
        let front = left_of(hand, play, n - 1);
        if stays(hand, play, n - 1) {
            front.push(hand[n - 1])
        } else {
            front
        }
    }
}

/// What is left of a hand after a play.
pub open spec fn leftover(hand: Seq<Symbol>, play: Seq<Card>) -> Seq<Symbol> {
    left_of(hand, play, hand.len() as int)
}

/// The suit has a plain card.
pub open spec fn suit_held(hand: Seq<Symbol>, ctx: RuleContext, suit: Suit) -> bool {
    exists|v: int| 2 <= v <= 14 && #[trigger] holds_at(hand, ctx, suit, v)
}

/// How many of the five values from `low` on the suit has plain cards of.
pub open spec fn held_of_five(hand: Seq<Symbol>, ctx: RuleContext, suit: Suit, low: int) -> int {
    (if holds_at(hand, ctx, suit, low) {
        1int
    } else {
        0int
    }) + (if holds_at(hand, ctx, suit, low + 1) {
        1int
    } else {
        0int
    }) + (if holds_at(hand, ctx, suit, low + 2) {
        1int
    } else {
        0int
    }) + (if holds_at(hand, ctx, suit, low + 3) {
        1int
    } else {
        0int
    }) + (if holds_at(hand, ctx, suit, low + 4) {
        1int
    } else {
        0int
    })
}

/// Some rank other than the level has at least `n` plain cards.
pub open spec fn has_group(hand: Seq<Symbol>, ctx: RuleContext, n: int) -> bool {
    exists|v: int|
        2 <= v <= 14 && v != natural(level_rank(ctx.hand_level)) && #[trigger] plain_count(
            hand,
            ctx,
            v,
        ) >= n
}

/// Some suit has, in a row of five values that starts at `first` or above, at least `n` plain
/// cards but not all five.
pub open spec fn near_flush(hand: Seq<Symbol>, ctx: RuleContext, first: int, n: int) -> bool {
    exists|s: int, low: int|
        0 <= s < 4 && first <= low <= 10 && suit_held(hand, ctx, suit_at(s)) && n
            <= #[trigger] held_of_five(hand, ctx, suit_at(s), low) <= 4
}

/// Whether the wild cards of what is left can complete a bomb or a straight flush.
pub open spec fn can_form_bomb(rest: Seq<Symbol>, ctx: RuleContext) -> bool {
    let w = tally(rest, wild_symbols(ctx)) as int;
    w > 0 && (has_group(
        rest,
        ctx,
        if w >= 2 {
            2
        } else {
            4 - w
        },
    ) || near_flush(rest, ctx, 2, 5 - w))
}

/// Whether a hand has a wild card and a bomb or straight flush that one wild card completes.
pub open spec fn wild_bomb_at_hand(hand: Seq<Symbol>, ctx: RuleContext) -> bool {
    tally(hand, wild_symbols(ctx)) > 0 && (has_group(hand, ctx, 3) || exists|s: int, low: int|
        0 <= s < 4 && 3 <= low <= 10 && #[trigger] held_of_five(hand, ctx, suit_at(s), low) >= 4)
}

/// Whether what is left still has a bomb, plain or with the help of a wild card.
pub open spec fn bomb_stays(rest: Seq<Symbol>, ctx: RuleContext) -> bool {
    bomb_count(rest, ctx) > 0 || wild_bomb_at_hand(rest, ctx)
}

pub open spec fn is_joker_symbol(symbol: Symbol) -> bool {
    match symbol {
        Symbol::Known(card) => card.suit == Suit::Joker,
        Symbol::OddJoker => true,
        Symbol::Odd => false,
    }
}

/// Nothing is left but wild cards and jokers, with a wild card among them.
pub open spec fn only_wild_left(rest: Seq<Symbol>, ctx: RuleContext) -> bool {
    &&& forall|i: int|
        0 <= i < rest.len() ==> is_wild_symbol(#[trigger] rest[i], ctx) || is_joker_symbol(rest[i])
    &&& exists|i: int| 0 <= i < rest.len() && is_wild_symbol(#[trigger] rest[i], ctx)
}

pub open spec fn lesser(a: int, b: int) -> int {
    if a <= b {
        a
    } else {
        b
    }
}

/// How many straights start at `low`.
pub open spec fn straights_at(counts: Seq<int>, low: int) -> int {
    lesser(
        counts[low],
        lesser(
            counts[low + 1],
            lesser(counts[low + 2], lesser(counts[low + 3], counts[low + 4])),
        ),
    )
}

/// What `n` straights from `low` leave.
pub open spec fn without_straights(counts: Seq<int>, low: int, n: int) -> Seq<int> {
    Seq::new(
        counts.len(),
        |v: int|
            if low <= v <= low + 4 {
                counts[v] - n
            } else {
                counts[v]
            },
    )
}

/// Takes as many straights as there are, from the lowest up, and counts them.
pub open spec fn straights_from(counts: Seq<int>, low: int) -> (int, Seq<int>)
    decreases 11 - low,
{
    if low > 10 {
        (0, counts)
    } else {
        let n = straights_at(counts, low);
        let (more, left) = straights_from(without_straights(counts, low, n), low + 1);
        (n + more, left)
    }
}

/// The number of plain cards at each natural value.
pub open spec fn value_counts(rest: Seq<Symbol>, ctx: RuleContext) -> Seq<int> {
    Seq::new(15, |v: int| if v < 2 {
        0
    } else {
        plain_count(rest, ctx, v) as int
    })
}

/// Number of straights in what is left, and of single cards once those are gone.
pub open spec fn straights_and_singles(rest: Seq<Symbol>, ctx: RuleContext) -> (int, int) {
    let (n, left) = straights_from(value_counts(rest, ctx), 2);
    (n, values_from(2, |v: int| left[v] == 1) as int)
}

fn count_before(hand: &[Symbol], i: usize, card: Card) -> (n: usize)
    requires
        i <= hand@.len(),
    ensures
        n == tally(hand@.take(i as int), is_symbol(card)),
{
    let mut n: usize = 0;
    assert(hand@.take(0) =~= Seq::<Symbol>::empty());
    for j in 0..i
        invariant
            i <= hand@.len(),
            n <= j,
            n == tally(hand@.take(j as int), is_symbol(card)),
    {
        proof {
            lemma_tally_step(hand@, is_symbol(card), j as int);
        }
        if hand[j] == Symbol::Known(card) {
            n = n + 1;
        }
    }
    n
}

fn count_same(play: &[Card], card: Card) -> (n: usize)
    ensures
        n == tally(play@, same_card(card)),
{
    let test = |c: Card| -> (b: bool)
        ensures
            b == (c == card),
        { c == card };
    count_where(play, test, Ghost(same_card(card)))
}

/// What is left of a hand after a play.
pub fn take_away(hand: &[Symbol], play: &[Card]) -> (rest: Vec<Symbol>)
    ensures
        rest@ == leftover(hand@, play@),
        rest@.len() <= hand@.len(),
{
    let mut rest: Vec<Symbol> = Vec::new();
    for i in 0..hand.len()
        invariant
            rest@ == left_of(hand@, play@, i as int),
            rest@.len() <= i,
    {
        let symbol = hand[i];
        let keep = match symbol {
            Symbol::Known(card) => {
                let used: usize = count_same(play, card);
                used == 0 || count_before(hand, i, card) >= used
            },
            _ => true,
        };
        if keep {
            rest.push(symbol);
        }
    }
    rest
}

fn number_of_wilds(hand: &[Symbol], ctx: RuleContext) -> (n: usize)
    ensures
        n == tally(hand@, wild_symbols(ctx)),
        n <= hand@.len(),
{
    let test = |s: Symbol| -> (b: bool)
        ensures
            b == is_wild_symbol(s, ctx),
        { symbol_is_wild(s, ctx) };
    count_where(hand, test, Ghost(wild_symbols(ctx)))
}

fn any_group(hand: &[Symbol], ctx: RuleContext, n: usize) -> (b: bool)
    ensures
        b == has_group(hand@, ctx, n as int),
{
    let counts = count_plain(hand, ctx);
    let level: usize = natural_of(ctx.hand_level.to_rank()) as usize;
    for v in 2..15
        invariant
            counts@.len() == 15,
            forall|v: int| 2 <= v <= 14 ==> #[trigger] counts@[v] == plain_count(hand@, ctx, v),
            level == natural(level_rank(ctx.hand_level)),
            forall|w: int|
                2 <= w < v && w != level ==> #[trigger] plain_count(hand@, ctx, w) < n,
    {
        if v != level && counts[v] >= n {
            assert(plain_count(hand@, ctx, v as int) >= n);
            return true;
        }
    }
    false
}

fn any_of_suit(hand: &[Symbol], ctx: RuleContext, suit: Suit) -> (b: bool)
    ensures
        b == suit_held(hand@, ctx, suit),
{
    let mut v: u8 = 2;
    while v <= 14
        invariant
            2 <= v <= 15,
            forall|w: int| 2 <= w < v ==> !#[trigger] holds_at(hand@, ctx, suit, w),
        decreases 15 - v,
    {
        if holds_plain_at(hand, ctx, suit, v) {
            assert(holds_at(hand@, ctx, suit, v as int));
            return true;
        }
        v = v + 1;
    }
    false
}

fn one_if(b: bool) -> (n: usize)
    ensures
        n == if b {
            1int
        } else {
            0int
        },
{
    if b {
        1
    } else {
        0
    }
}

fn count_of_five(hand: &[Symbol], ctx: RuleContext, suit: Suit, low: u8) -> (n: usize)
    requires
        low <= 10,
    ensures
        n == held_of_five(hand@, ctx, suit, low as int),
        n <= 5,
{
    one_if(holds_plain_at(hand, ctx, suit, low)) + one_if(
        holds_plain_at(hand, ctx, suit, low + 1),
    ) + one_if(holds_plain_at(hand, ctx, suit, low + 2)) + one_if(
        holds_plain_at(hand, ctx, suit, low + 3),
    ) + one_if(holds_plain_at(hand, ctx, suit, low + 4))
}

fn suit_number(i: usize) -> (suit: Suit)
    ensures
        suit == suit_at(i as int),
{
    match i {
        0 => Suit::Spades,
        1 => Suit::Hearts,
        2 => Suit::Diamonds,
        _ => Suit::Clubs,
    }
}

/// Whether the wild cards of what is left can complete a bomb or a straight flush.
pub fn wilds_could_form_bomb_or_sf(rest: &[Symbol], ctx: RuleContext) -> (b: bool)
    ensures
        b == can_form_bomb(rest@, ctx),
{
    let w: usize = number_of_wilds(rest, ctx);
    if w == 0 {
        return false;
    }
    let need: usize = if w >= 2 {
        2
    } else {
        3
    };
    if any_group(rest, ctx, need) {
        return true;
    }
    let least: usize = if w >= 5 {
        0
    } else {
        5 - w
    };
    for s in 0..4
        invariant
            least == if w >= 5 {
                0int
            } else {
                5 - w
            },
            forall|t: int, low: int|
                0 <= t < s && 2 <= low <= 10 && suit_held(rest@, ctx, suit_at(t)) ==> !(5 - w
                    <= #[trigger] held_of_five(rest@, ctx, suit_at(t), low) <= 4),
            can_form_bomb(rest@, ctx) == near_flush(rest@, ctx, 2, 5 - w),
    {
        let suit = suit_number(s);
        if any_of_suit(rest, ctx, suit) {
            let mut low: u8 = 2;
            while low <= 10
                invariant
                    2 <= low <= 11,
                    s < 4,
                    suit == suit_at(s as int),
                    suit_held(rest@, ctx, suit),
                    least == if w >= 5 {
                        0int
                    } else {
                        5 - w
                    },
                    forall|l: int|
                        2 <= l < low ==> !(5 - w <= #[trigger] held_of_five(rest@, ctx, suit, l)
                            <= 4),
                    can_form_bomb(rest@, ctx) == near_flush(rest@, ctx, 2, 5 - w),
                decreases 11 - low,
            {
                let n: usize = count_of_five(rest, ctx, suit, low);
                if least <= n && n <= 4 {
                    assert(5 - w <= held_of_five(rest@, ctx, suit_at(s as int), low as int) <= 4);
                    return true;
                }
                low = low + 1;
            }
        }
    }
    false
}

/// Whether a hand has a wild card and a bomb or straight flush that one wild card completes.
pub fn hand_has_wild_bomb_or_sf(hand: &[Symbol], ctx: RuleContext) -> (b: bool)
    ensures
        b == wild_bomb_at_hand(hand@, ctx),
{
    if number_of_wilds(hand, ctx) == 0 {
        return false;
    }
    if any_group(hand, ctx, 3) {
        return true;
    }
    for s in 0..4
        invariant
            forall|t: int, low: int|
                0 <= t < s && 3 <= low <= 10 ==> #[trigger] held_of_five(
                    hand@,
                    ctx,
                    suit_at(t),
                    low,
                ) < 4,
            wild_bomb_at_hand(hand@, ctx) == exists|s: int, low: int|
                0 <= s < 4 && 3 <= low <= 10 && #[trigger] held_of_five(hand@, ctx, suit_at(s), low)
                    >= 4,
    {
        let suit = suit_number(s);
        let mut low: u8 = 3;
        while low <= 10
            invariant
                3 <= low <= 11,
                s < 4,
                suit == suit_at(s as int),
                forall|l: int| 3 <= l < low ==> #[trigger] held_of_five(hand@, ctx, suit, l) < 4,
                wild_bomb_at_hand(hand@, ctx) == exists|s: int, low: int|
                    0 <= s < 4 && 3 <= low <= 10 && #[trigger] held_of_five(
                        hand@,
                        ctx,
                        suit_at(s),
                        low,
                    ) >= 4,
            decreases 11 - low,
        {
            if count_of_five(hand, ctx, suit, low) >= 4 {
                assert(held_of_five(hand@, ctx, suit_at(s as int), low as int) >= 4);
                return true;
            }
            low = low + 1;
        }
    }
    false
}

/// Whether what is left still has a bomb, plain or with the help of a wild card.
pub fn still_has_bomb(rest: &[Symbol], ctx: RuleContext) -> (b: bool)
    ensures
        b == bomb_stays(rest@, ctx),
{
    analyze_hand_combos(rest, ctx).bomb_count > 0 || hand_has_wild_bomb_or_sf(rest, ctx)
}

/// Whether a text in a hand is, or looks like, a joker.
pub fn symbol_is_joker(symbol: Symbol) -> (b: bool)
    ensures
        b == is_joker_symbol(symbol),
{
    match symbol {
        Symbol::Known(card) => card.suit == Suit::Joker,
        Symbol::OddJoker => true,
        Symbol::Odd => false,
    }
}

/// Whether nothing is left but wild cards and jokers, with a wild card among them.
pub fn leftover_all_wild(rest: &[Symbol], ctx: RuleContext) -> (b: bool)
    ensures
        b == only_wild_left(rest@, ctx),
{
    let mut any = false;
    for i in 0..rest.len()
        invariant
            forall|j: int|
                0 <= j < i ==> is_wild_symbol(#[trigger] rest@[j], ctx) || is_joker_symbol(
                    rest@[j],
                ),
            any == exists|j: int| 0 <= j < i && is_wild_symbol(#[trigger] rest@[j], ctx),
    {
        if symbol_is_wild(rest[i], ctx) {
            assert(is_wild_symbol(rest@[i as int], ctx));
            any = true;
        } else if !symbol_is_joker(rest[i]) {
            return false;
        }
    }
    any
}

fn least_of(a: usize, b: usize) -> (m: usize)
    ensures
        m == lesser(a as int, b as int),
{
    if a <= b {
        a
    } else {
        b
    }
}

spec fn as_ints(counts: Seq<usize>) -> Seq<int> {
    Seq::new(counts.len(), |v: int| counts[v] as int)
}

/// Number of straights in what is left, and of single cards once those are gone. Wild cards
/// and jokers do not count.
pub fn sf_leftover_straights_and_singles(rest: &[Symbol], ctx: RuleContext) -> (n: (u128, usize))
    ensures
        (n.0 as int, n.1 as int) == straights_and_singles(rest@, ctx),
{
    let mut counts = count_plain(rest, ctx);
    counts[0] = 0;
    counts[1] = 0;
    assert(as_ints(counts@) =~= value_counts(rest@, ctx));
    let ghost whole = straights_from(value_counts(rest@, ctx), 2);
    let mut straights: u128 = 0;
    let mut low: usize = 2;
    while low <= 10
        invariant
            2 <= low <= 11,
            counts@.len() == 15,
            straights <= (low - 2) * usize::MAX,
            ({
                let (more, left) = straights_from(as_ints(counts@), low as int);
                whole == (straights + more, left)
            }),
        decreases 11 - low,
    {
        let n: usize = least_of(
            counts[low],
            least_of(
                counts[low + 1],
                least_of(counts[low + 2], least_of(counts[low + 3], counts[low + 4])),
            ),
        );
        let ghost before = as_ints(counts@);
        assert(n == straights_at(before, low as int));
        let c0: usize = counts[low];
        let c1: usize = counts[low + 1];
        let c2: usize = counts[low + 2];
        let c3: usize = counts[low + 3];
        let c4: usize = counts[low + 4];
        counts[low] = c0 - n;
        counts[low + 1] = c1 - n;
        counts[low + 2] = c2 - n;
        counts[low + 3] = c3 - n;
        counts[low + 4] = c4 - n;
        assert(as_ints(counts@) =~= without_straights(before, low as int, n as int));
        straights = straights + n as u128;
        low = low + 1;
    }
    let ghost left = whole.1;
    let ghost lone = |v: int| left[v] == 1;
    let mut singles: usize = 0;
    let mut v: usize = 2;
    while v <= 14
        invariant
            2 <= v <= 15,
            counts@.len() == 15,
            left == as_ints(counts@),
            lone == (|v: int| left[v] == 1),
            singles <= v - 2,
            singles + values_from(v as int, lone) == values_from(2, lone),
        decreases 15 - v,
    {
        if counts[v] == 1 {
            singles = singles + 1;
        }
        v = v + 1;
    }
    (straights, singles)
}

/// Cards of a hand that may go down together: a single card always, more if they combine.
pub open spec fn one_trick(cards: Seq<Symbol>, ctx: RuleContext) -> bool {
    cards.len() == 1 || ((forall|i: int| 0 <= i < cards.len() ==> (#[trigger] cards[i]) is Known)
        && combination_sought(Seq::new(cards.len(), |i: int| cards[i]->Known_0), ctx, 0, 0) is Some)
}

/// The smaller of two numbers of tricks, where there may be none.
pub open spec fn fewer(a: Option<nat>, b: Option<nat>) -> Option<nat> {
    match (a, b) {
        (Some(x), Some(y)) => if x <= y {
            Some(x)
        } else {
            Some(y)
        },
        (Some(x), None) => Some(x),
        (None, _) => b,
    }
}

/// The fewest tricks in which a hand goes down.
pub open spec fn fewest_tricks(cards: Seq<Symbol>, ctx: RuleContext) -> nat
    decreases cards.len(), cards.len() + 1,
{
    if cards.len() == 0 {
        0
    } else {
        match fewest_from(cards.take(1), Seq::empty(), cards.skip(1), ctx) {
            Some(n) => n,
            None => cards.len(),
        }
    }
}

/// The fewest tricks if the first takes `taken`, leaves `kept` and may or may not take each
/// of `rest`.
pub open spec fn fewest_from(
    taken: Seq<Symbol>,
    kept: Seq<Symbol>,
    rest: Seq<Symbol>,
    ctx: RuleContext,
) -> Option<nat>
    decreases taken.len() + kept.len() + rest.len(), rest.len(),
{
    if taken.len() == 0 {
        None
    } else if rest.len() == 0 {
        if one_trick(taken, ctx) {
            Some(1 + fewest_tricks(kept, ctx))
        } else {
            None
        }
    } else {
        fewer(
            fewest_from(taken.push(rest[0]), kept, rest.skip(1), ctx),
            fewest_from(taken, kept.push(rest[0]), rest.skip(1), ctx),
        )
    }
}

fn goes_together(cards: &Vec<Symbol>, ctx: RuleContext) -> (b: bool)
    ensures
        b == one_trick(cards@, ctx),
{
    if cards.len() == 1 {
        return true;
    }
    let mut known: Vec<Card> = Vec::new();
    for i in 0..cards.len()
        invariant
            known@.len() == i,
            cards@.len() != 1,
            forall|j: int| 0 <= j < i ==> #[trigger] cards@[j] == Symbol::Known(known@[j]),
    {
        let symbol = cards[i];
        if let Symbol::Known(card) = symbol {
            known.push(card);
        } else {
            assert(!(cards@[i as int] is Known));
            return false;
        }
    }
    assert(known@ =~= Seq::new(cards@.len(), |i: int| cards@[i]->Known_0));
    combine(known.as_slice(), None, ctx).is_some()
}

/// Numbers of tricks that were worked out before.
pub struct TrickMemo {
    keys: Vec<Vec<Symbol>>,
    values: Vec<usize>,
    ctx: RuleContext,
}

impl TrickMemo {
    pub closed spec fn rules(&self) -> RuleContext {
        self.ctx
    }

    /// Each number is that of its hand.
    pub closed spec fn wf(&self) -> bool {
        &&& self.keys@.len() == self.values@.len()
        &&& forall|i: int|
            0 <= i < self.keys@.len() ==> #[trigger] self.values@[i] == fewest_tricks(
                self.keys@[i]@,
                self.ctx,
            )
    }

    /// Nothing known yet.
    pub fn new(ctx: RuleContext) -> (memo: TrickMemo)
        ensures
            memo.wf(),
            memo.rules() == ctx,
    {
        TrickMemo { keys: Vec::new(), values: Vec::new(), ctx }
    }

    fn find(&self, cards: &Vec<Symbol>) -> (n: Option<usize>)
        requires
            self.wf(),
        ensures
            n matches Some(k) ==> k == fewest_tricks(cards@, self.rules()),
    {
        for i in 0..self.keys.len()
            invariant
                self.wf(),
        {
            if same_symbols(&self.keys[i], cards) {
                return Some(self.values[i]);
            }
        }
        None
    }
}

fn same_symbols(a: &Vec<Symbol>, b: &Vec<Symbol>) -> (same: bool)
    ensures
        same == (a@ == b@),
{
    if a.len() != b.len() {
        return false;
    }
    for i in 0..a.len()
        invariant
            a@.len() == b@.len(),
            forall|j: int| 0 <= j < i ==> #[trigger] a@[j] == b@[j],
    {
        if a[i] != b[i] {
            return false;
        }
    }
    assert(a@ =~= b@);
    true
}

/// A hand goes down in at most as many tricks as it has cards.
pub proof fn lemma_fewest_tricks(cards: Seq<Symbol>, ctx: RuleContext)
    ensures
        fewest_tricks(cards, ctx) <= cards.len(),
        cards.len() > 0 ==> fewest_tricks(cards, ctx) >= 1,
    decreases cards.len(), cards.len() + 1,
{
    if cards.len() > 0 {
        lemma_fewest_from(cards.take(1), Seq::empty(), cards.skip(1), ctx);
    }
}

proof fn lemma_fewest_from(
    taken: Seq<Symbol>,
    kept: Seq<Symbol>,
    rest: Seq<Symbol>,
    ctx: RuleContext,
)
    requires
        taken.len() > 0,
    ensures
        fewest_from(taken, kept, rest, ctx) matches Some(n) ==> 1 <= n <= 1 + kept.len()
            + rest.len(),
        taken.len() == 1 ==> fewest_from(taken, kept, rest, ctx) is Some,
    decreases taken.len() + kept.len() + rest.len(), rest.len(),
{
    if rest.len() == 0 {
        lemma_fewest_tricks(kept, ctx);
    } else {
        lemma_fewest_from(taken.push(rest[0]), kept, rest.skip(1), ctx);
        lemma_fewest_from(taken, kept.push(rest[0]), rest.skip(1), ctx);
    }
}

fn seek_fewest(
    taken: &mut Vec<Symbol>,
    kept: &mut Vec<Symbol>,
    cards: &Vec<Symbol>,
    at: usize,
    memo: &mut TrickMemo,
) -> (n: Option<usize>)
    requires
        old(taken)@.len() > 0,
        at <= cards@.len(),
        old(taken)@.len() + old(kept)@.len() + cards@.len() - at <= usize::MAX,
        old(memo).wf(),
    ensures
        match n {
            Some(k) => fewest_from(
                old(taken)@,
                old(kept)@,
                cards@.skip(at as int),
                old(memo).rules(),
            ) == Some(k as nat),
            None => fewest_from(
                old(taken)@,
                old(kept)@,
                cards@.skip(at as int),
                old(memo).rules(),
            ) is None,
        },
        final(taken)@ == old(taken)@,
        final(kept)@ == old(kept)@,
        final(memo).wf(),
        final(memo).rules() == old(memo).rules(),
    decreases old(taken)@.len() + old(kept)@.len() + cards@.len() - at, cards@.len() - at,
{
    let ghost rest = cards@.skip(at as int);
    let ghost t0 = taken@;
    let ghost k0 = kept@;
    let ghost ctx = memo.rules();
    proof {
        lemma_fewest_from(t0, k0, rest, ctx);
    }
    if at >= cards.len() {
        if goes_together(taken, memo.ctx) {
            let n: usize = min_tricks_partition(kept, memo);
            proof {
                lemma_fewest_tricks(kept@, ctx);
            }
            return Some(n + 1);
        }
        return None;
    }
    assert(rest[0] == cards@[at as int]);
    assert(rest.skip(1) =~= cards@.skip(at + 1));
    taken.push(cards[at]);
    let with = seek_fewest(taken, kept, cards, at + 1, memo);
    taken.pop();
    assert(taken@ =~= t0);
    kept.push(cards[at]);
    let without = seek_fewest(taken, kept, cards, at + 1, memo);
    kept.pop();
    assert(kept@ =~= k0);
    match (with, without) {
        (Some(x), Some(y)) => if x <= y {
            Some(x)
        } else {
            Some(y)
        },
        (Some(x), None) => Some(x),
        (None, other) => other,
    }
}

/// The fewest tricks in which a hand goes down.
pub fn min_tricks_partition(cards: &Vec<Symbol>, memo: &mut TrickMemo) -> (n: usize)
    requires
        old(memo).wf(),
    ensures
        n == fewest_tricks(cards@, old(memo).rules()),
        final(memo).wf(),
        final(memo).rules() == old(memo).rules(),
    decreases cards@.len(), cards@.len() + 1,
{
    if cards.len() == 0 {
        return 0;
    }
    if let Some(n) = memo.find(cards) {
        return n;
    }
    let mut taken: Vec<Symbol> = Vec::new();
    taken.push(cards[0]);
    let mut kept: Vec<Symbol> = Vec::new();
    assert(taken@ =~= cards@.take(1));
    assert(kept@ =~= Seq::<Symbol>::empty());
    let n: usize = match seek_fewest(&mut taken, &mut kept, cards, 1, memo) {
        Some(n) => n,
        None => cards.len(),
    };
    memo.keys.push(copy_all(cards.as_slice()));
    memo.values.push(n);
    n
}

/// A hand with a wild card is one card short of a bomb where three plain cards of a rank other than
/// the level go with it, or four of the five cards of a straight flush from three up; without a
/// wild card no hand is.
pub proof fn wild_cards_complete_bombs(hand: Seq<Symbol>, ctx: RuleContext, v: int, s: int, low: int)
    ensures
        tally(hand, wild_symbols(ctx)) == 0 ==> !wild_bomb_at_hand(hand, ctx) && !can_form_bomb(
            hand,
            ctx,
        ),
        tally(hand, wild_symbols(ctx)) > 0 && 2 <= v <= 14 && v != natural(
            level_rank(ctx.hand_level),
        ) && plain_count(hand, ctx, v) >= 3 ==> wild_bomb_at_hand(hand, ctx) && can_form_bomb(
            hand,
            ctx,
        ),
        tally(hand, wild_symbols(ctx)) >= 2 && 2 <= v <= 14 && v != natural(
            level_rank(ctx.hand_level),
        ) && plain_count(hand, ctx, v) >= 2 ==> can_form_bomb(hand, ctx),
        tally(hand, wild_symbols(ctx)) > 0 && 0 <= s < 4 && 3 <= low <= 10 && held_of_five(
            hand,
            ctx,
            suit_at(s),
            low,
        ) >= 4 ==> wild_bomb_at_hand(hand, ctx),
        (forall|u: int|
            2 <= u <= 14 && u != natural(level_rank(ctx.hand_level)) ==> #[trigger] plain_count(
                hand,
                ctx,
                u,
            ) < 3) && (forall|t: int, l: int|
            0 <= t < 4 && 2 <= l <= 10 ==> #[trigger] held_of_five(hand, ctx, suit_at(t), l) < 4)
            ==> !wild_bomb_at_hand(hand, ctx) && (tally(hand, wild_symbols(ctx)) == 1
            ==> !can_form_bomb(hand, ctx)),
        (forall|u: int|
            2 <= u <= 14 && u != natural(level_rank(ctx.hand_level)) ==> #[trigger] plain_count(
                hand,
                ctx,
                u,
            ) < 2) && (forall|t: int, l: int|
            0 <= t < 4 && 2 <= l <= 10 ==> #[trigger] held_of_five(hand, ctx, suit_at(t), l) < 3)
            ==> (tally(hand, wild_symbols(ctx)) == 2 ==> !can_form_bomb(hand, ctx)),
        bomb_count(hand, ctx) > 0 || wild_bomb_at_hand(hand, ctx) <==> bomb_stays(hand, ctx),
{
}

/// Each of the five values from `l` on has a card.
spec fn row_from(counts: Seq<int>, l: int) -> bool {
    0 < counts[l] && 0 < counts[l + 1] && 0 < counts[l + 2] && 0 < counts[l + 3] && 0 < counts[l + 4]
}

proof fn lemma_straights_found(counts: Seq<int>, low: int)
    requires
        counts.len() == 15,
        2 <= low,
        forall|v: int| 0 <= v < 15 ==> 0 <= #[trigger] counts[v],
    ensures
        straights_from(counts, low).0 >= 0,
        straights_from(counts, low).0 > 0 <==> exists|l: int|
            low <= l <= 10 && #[trigger] row_from(counts, l),
    decreases 11 - low,
{
    if low <= 10 {
        let n = straights_at(counts, low);
        let next = without_straights(counts, low, n);
        assert(counts[low] >= 0 && counts[low + 1] >= 0 && counts[low + 2] >= 0 && counts[low + 3] >= 0
            && counts[low + 4] >= 0);
        assert(n >= 0);
        assert forall|v: int| 0 <= v < 15 implies 0 <= #[trigger] next[v] by {
            assert(counts[v] >= 0);
        }
        lemma_straights_found(next, low + 1);
        if n == 0 {
            assert(next =~= counts);
            assert(!row_from(counts, low));
            if exists|l: int| low <= l <= 10 && #[trigger] row_from(counts, l) {
                let l = choose|l: int| low <= l <= 10 && #[trigger] row_from(counts, l);
                assert(row_from(next, l));
            }
            if exists|l: int| low + 1 <= l <= 10 && #[trigger] row_from(next, l) {
                let l = choose|l: int| low + 1 <= l <= 10 && #[trigger] row_from(next, l);
                assert(row_from(counts, l));
            }
        } else {
            assert(row_from(counts, low));
        }
    }
}

/// Each of the five ranks from natural value `l` on has a plain card.
pub open spec fn row_left(rest: Seq<Symbol>, ctx: RuleContext, l: int) -> bool {
    &&& plain_count(rest, ctx, l) >= 1
    &&& plain_count(rest, ctx, l + 1) >= 1
    &&& plain_count(rest, ctx, l + 2) >= 1
    &&& plain_count(rest, ctx, l + 3) >= 1
    &&& plain_count(rest, ctx, l + 4) >= 1
}

/// What is left has a straight exactly where five ranks in a row, from the two up, each have a
/// plain card.
pub proof fn straights_left_are_rows(rest: Seq<Symbol>, ctx: RuleContext)
    ensures
        straights_and_singles(rest, ctx).0 > 0 <==> exists|l: int|
            2 <= l <= 10 && #[trigger] row_left(rest, ctx, l),
        straights_and_singles(rest, ctx).0 >= 0,
{
    let counts = value_counts(rest, ctx);
    lemma_straights_found(counts, 2);
    assert forall|l: int| 2 <= l <= 10 implies #[trigger] row_left(rest, ctx, l) == row_from(
        counts,
        l,
    ) by {}
    if exists|l: int| 2 <= l <= 10 && #[trigger] row_left(rest, ctx, l) {
        let l = choose|l: int| 2 <= l <= 10 && #[trigger] row_left(rest, ctx, l);
        assert(row_from(counts, l));
    }
    if exists|l: int| 2 <= l <= 10 && #[trigger] row_from(counts, l) {
        let l = choose|l: int| 2 <= l <= 10 && #[trigger] row_from(counts, l);
        assert(row_left(rest, ctx, l));
    }
}

/// Wild cards are stranded where one of them is left and nothing else but wild cards and jokers.
pub proof fn stranded_wild_cards_are_alone(rest: Seq<Symbol>, ctx: RuleContext, i: int, j: int)
    requires
        0 <= i < rest.len(),
        0 <= j < rest.len(),
    ensures
        !is_wild_symbol(rest[i], ctx) && !is_joker_symbol(rest[i]) ==> !only_wild_left(rest, ctx),
        is_wild_symbol(rest[j], ctx) && (forall|k: int|
            0 <= k < rest.len() ==> is_wild_symbol(#[trigger] rest[k], ctx) || is_joker_symbol(
                rest[k],
            )) ==> only_wild_left(rest, ctx),
        (forall|k: int| 0 <= k < rest.len() ==> !is_wild_symbol(#[trigger] rest[k], ctx))
            ==> !only_wild_left(rest, ctx),
{
    assert(rest[i] == rest[i]);
}

} // verus!
