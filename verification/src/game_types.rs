//! The state of a table's game and the actions of its players.

use vstd::prelude::*;
use vstd::string::*;
use crate::cards::HandLevel;
use crate::combination_parser::Combination;
use crate::domain::{PerSeat, Seat, TeamId};
use crate::text::{copy_texts, texts};

verus! {

/// What a player may do.
#[derive(Clone, Debug, PartialEq, Eq)]
pub enum PlayerAction {
    Pass,
    Play { cards: Vec<String>, wild_targets: Option<Vec<String>> },
    Tribute { card: String },
    ReturnCard { card: String },
}

/// The contents of an action.
pub ghost enum Action {
    Pass,
    Play { cards: Seq<Seq<char>>, wild_targets: Option<Seq<Seq<char>>> },
    Tribute { card: Seq<char> },
    ReturnCard { card: Seq<char> },
}

impl View for PlayerAction {
    type V = Action;

    open spec fn view(&self) -> Action {
        match *self {
            PlayerAction::Pass => Action::Pass,
            PlayerAction::Play { cards, wild_targets } => Action::Play {
                cards: texts(cards@),
                wild_targets: match wild_targets {
                    Some(list) => Some(texts(list@)),
                    None => None,
                },
            },
            PlayerAction::Tribute { card } => Action::Tribute { card: card@ },
            PlayerAction::ReturnCard { card } => Action::ReturnCard { card: card@ },
        }
    }
}

/// The contents of a list of actions.
pub open spec fn actions(list: Seq<PlayerAction>) -> Seq<Action> {
    list.map_values(|a: PlayerAction| a@)
}

impl PlayerAction {
    /// A copy of the action.
    pub fn duplicate(&self) -> (copy: PlayerAction)
        ensures
            copy@ == self@,
    {
        match self {
            PlayerAction::Pass => PlayerAction::Pass,
            PlayerAction::Play { cards, wild_targets } => {
                let targets: Option<Vec<String>> = match wild_targets {
                    Some(list) => Some(copy_texts(list.as_slice())),
                    None => None,
                };
                PlayerAction::Play { cards: copy_texts(cards.as_slice()), wild_targets: targets }
            },
            PlayerAction::Tribute { card } => PlayerAction::Tribute { card: card.clone() },
            PlayerAction::ReturnCard { card } => PlayerAction::ReturnCard { card: card.clone() },
        }
    }
}

#[derive(Clone, Copy, Debug, PartialEq, Eq, Hash, Structural)]
pub enum GamePhase {
    TableSetup,
    Dealing,
    Tribute,
    Exchange,
    Playing,
    Scoring,
    Completed,
}

/// A play on the table.
#[derive(Debug)]
pub struct PlayState {
    pub seat: Seat,
    pub cards: Vec<String>,
    pub wild_targets: Option<Vec<String>>,
    pub combination: Combination,
}

/// The trick in progress.
#[derive(Debug)]
pub struct TrickState {
    pub top_play: Option<PlayState>,
    pub last_play_seat: Option<Seat>,
}

#[derive(Clone, Copy, Debug, PartialEq, Eq, Hash, Structural)]
pub enum HistoryActionKind {
    Play,
    Pass,
}

/// One action of the hand so far.
#[derive(Debug)]
pub struct HandHistoryEntry {
    pub seq: u64,
    pub action_id: String,
    pub seat: Seat,
    pub timestamp: String,
    pub action_type: HistoryActionKind,
    pub cards: Vec<String>,
    pub combination_type: Option<String>,
    pub wild_targets: Option<Vec<String>>,
}

/// A tribute that is owed, and what has been paid and returned so far.
#[derive(Debug)]
pub struct TributePair {
    pub payer: Seat,
    pub receiver: Seat,
    pub paid_card: Option<String>,
    pub return_card: Option<String>,
}

/// The tributes of a hand.
#[derive(Debug)]
pub struct TributeState {
    pub canceled: bool,
    pub pairs: Vec<TributePair>,
    pub opening_lead_candidates: Vec<Seat>,
}

/// A hand in progress.
pub struct HandState {
    pub hand_level: HandLevel,
    pub hands: PerSeat<Vec<String>>,
    pub trick: TrickState,
    pub history: Vec<HandHistoryEntry>,
    pub finishing_order: Vec<Seat>,
    pub tribute: Option<TributeState>,
}

/// The game of a table.
pub struct TableGameState {
    pub table_id: String,
    pub phase: GamePhase,
    pub turn_seat: Seat,
    pub leader_seat: Seat,
    pub dealer_seat: Seat,
    pub winner_team: Option<TeamId>,
    pub hand: Option<HandState>,
}

/// Number of cards that a seat holds; none where it has no hand.
pub open spec fn cards_left(hand: HandState, seat: Seat) -> nat {
    match hand.hands.at(seat) {
        Some(list) => list@.len(),
        None => 0,
    }
}

/// The first tribute from place `i` on that is still unpaid.
pub open spec fn unpaid_from(pairs: Seq<TributePair>, i: int) -> Option<Seat>
    decreases pairs.len() - i,
{
    if i < 0 || i >= pairs.len() {
        None
    } else if pairs[i].paid_card is None {
        Some(pairs[i].payer)
    } else {
        unpaid_from(pairs, i + 1)
    }
}

/// The first tribute from place `i` on that is still unreturned.
pub open spec fn unreturned_from(pairs: Seq<TributePair>, i: int) -> Option<Seat>
    decreases pairs.len() - i,
{
    if i < 0 || i >= pairs.len() {
        None
    } else if pairs[i].return_card is None {
        Some(pairs[i].receiver)
    } else {
        unreturned_from(pairs, i + 1)
    }
}

/// Who has to pay a tribute next.
pub open spec fn tribute_actor(hand: HandState) -> Option<Seat> {
    match hand.tribute {
        Some(t) => if t.canceled {
            None
        } else {
            unpaid_from(t.pairs@, 0)
        },
        None => None,
    }
}

/// Who has to return a card next.
pub open spec fn exchange_actor(hand: HandState) -> Option<Seat> {
    match hand.tribute {
        Some(t) => if t.canceled {
            None
        } else {
            unreturned_from(t.pairs@, 0)
        },
        None => None,
    }
}

impl HandState {
    /// A hand before the deal.
    pub fn new(hand_level: HandLevel) -> (hand: HandState)
        ensures
            hand.hand_level == hand_level,
            forall|seat: Seat| #[trigger] hand.hands.at(seat) is None,
            hand.trick.top_play is None,
            hand.trick.last_play_seat is None,
            hand.history@.len() == 0,
            hand.finishing_order@.len() == 0,
            hand.tribute is None,
    {
        HandState {
            hand_level,
            hands: PerSeat::empty(),
            trick: TrickState { top_play: None, last_play_seat: None },
            history: Vec::new(),
            finishing_order: Vec::new(),
            tribute: None,
        }
    }

    /// Number of cards that a seat still holds.
    pub fn remaining_count(&self, seat: Seat) -> (n: usize)
        ensures
            n == cards_left(*self, seat),
    {
        match self.hands.get(seat) {
            Some(list) => list.len(),
            None => 0,
        }
    }

    /// Who has to pay a tribute next.
    pub fn next_tribute_actor(&self) -> (seat: Option<Seat>)
        ensures
            seat == tribute_actor(*self),
    {
        let t = match &self.tribute {
            Some(t) => t,
            None => {
                return None;
            },
        };
        if t.canceled {
            return None;
        }
        let mut i: usize = 0;
        while i < t.pairs.len()
            invariant
                self.tribute == Some(*t),
                !t.canceled,
                i <= t.pairs@.len(),
                unpaid_from(t.pairs@, 0) == unpaid_from(t.pairs@, i as int),
            decreases t.pairs@.len() - i,
        {
            if t.pairs[i].paid_card.is_none() {
                return Some(t.pairs[i].payer);
            }
            i = i + 1;
        }
        None
    }

    /// Who has to return a card next.
    pub fn next_exchange_actor(&self) -> (seat: Option<Seat>)
        ensures
            seat == exchange_actor(*self),
    {
        let t = match &self.tribute {
            Some(t) => t,
            None => {
                return None;
            },
        };
        if t.canceled {
            return None;
        }
        let mut i: usize = 0;
        while i < t.pairs.len()
            invariant
                self.tribute == Some(*t),
                !t.canceled,
                i <= t.pairs@.len(),
                unreturned_from(t.pairs@, 0) == unreturned_from(t.pairs@, i as int),
            decreases t.pairs@.len() - i,
        {
            if t.pairs[i].return_card.is_none() {
                return Some(t.pairs[i].receiver);
            }
            i = i + 1;
        }
        None
    }
}

impl TableGameState {
    /// A game that has not started.
    pub fn new(table_id: String) -> (state: TableGameState)
        ensures
            state.table_id == table_id,
            state.phase == GamePhase::TableSetup,
            state.turn_seat == Seat::E,
            state.leader_seat == Seat::E,
            state.dealer_seat == Seat::E,
            state.winner_team is None,
            state.hand is None,
    {
        TableGameState {
            table_id,
            phase: GamePhase::TableSetup,
            turn_seat: Seat::E,
            leader_seat: Seat::E,
            dealer_seat: Seat::E,
            winner_team: None,
            hand: None,
        }
    }
}

} // verus!
