//! Seats, teams and what a player may do.

use vstd::prelude::*;

verus! {

/// A seat at the table; East and West play together, as do South and North.
#[derive(Clone, Copy, Debug, PartialEq, Eq, Hash, Structural)]
pub enum Seat {
    E,
    S,
    W,
    N,
}

/// A team.
#[derive(Clone, Copy, Debug, PartialEq, Eq, Hash, Structural)]
pub enum TeamId {
    Ew,
    Sn,
}

pub open spec fn partner_of(seat: Seat) -> Seat {
    match seat {
        Seat::E => Seat::W,
        Seat::S => Seat::N,
        Seat::W => Seat::E,
        Seat::N => Seat::S,
    }
}

pub open spec fn team_of(seat: Seat) -> TeamId {
    match seat {
        Seat::E => TeamId::Ew,
        Seat::W => TeamId::Ew,
        Seat::S => TeamId::Sn,
        Seat::N => TeamId::Sn,
    }
}

/// The seats in the order E, S, W, N.
pub open spec fn seat_at(i: int) -> Seat {
    if i == 0 {
        Seat::E
    } else if i == 1 {
        Seat::S
    } else if i == 2 {
        Seat::W
    } else {
        Seat::N
    }
}

pub open spec fn seat_text(seat: Seat) -> Seq<char> {
    match seat {
        Seat::E => seq!['E'],
        Seat::S => seq!['S'],
        Seat::W => seq!['W'],
        Seat::N => seq!['N'],
    }
}

pub open spec fn team_text(team: TeamId) -> Seq<char> {
    match team {
        TeamId::Ew => seq!['E', 'W'],
        TeamId::Sn => seq!['S', 'N'],
    }
}

/// Partners are mutual, differ from each other and form a team.
pub proof fn partners_form_a_team(a: Seat, b: Seat)
    ensures
        partner_of(partner_of(a)) == a,
        partner_of(a) != a,
        team_of(a) == team_of(b) <==> a == b || b == partner_of(a),
{
}

impl Seat {
    /// The seats in table order.
    pub fn all() -> (seats: [Seat; 4])
        ensures
            seats@ == seq![Seat::E, Seat::S, Seat::W, Seat::N],
            forall|i: int| 0 <= i < 4 ==> #[trigger] seats@[i] == seat_at(i),
    {
        let seats = [Seat::E, Seat::S, Seat::W, Seat::N];
        assert(seats@ =~= seq![Seat::E, Seat::S, Seat::W, Seat::N]);
        seats
    }

    /// The partner's seat.
    pub fn teammate(self) -> (seat: Seat)
        ensures
            seat == partner_of(self),
    {
        match self {
            Seat::E => Seat::W,
            Seat::S => Seat::N,
            Seat::W => Seat::E,
            Seat::N => Seat::S,
        }
    }

    /// The team that the seat plays for.
    pub fn team(self) -> (team: TeamId)
        ensures
            team == team_of(self),
    {
        match self {
            Seat::E | Seat::W => TeamId::Ew,
            Seat::S | Seat::N => TeamId::Sn,
        }
    }

    /// The letter of the seat.
    pub fn as_str(self) -> (text: &'static str)
        ensures
            text@ == seat_text(self),
    {
        proof {
            reveal_strlit("E");
            reveal_strlit("S");
            reveal_strlit("W");
            reveal_strlit("N");
            assert("E"@ =~= seq!['E']);
            assert("S"@ =~= seq!['S']);
            assert("W"@ =~= seq!['W']);
            assert("N"@ =~= seq!['N']);
        }
        match self {
            Seat::E => "E",
            Seat::S => "S",
            Seat::W => "W",
            Seat::N => "N",
        }
    }
}

impl TeamId {
    /// The letters of the team.
    pub fn as_str(self) -> (text: &'static str)
        ensures
            text@ == team_text(self),
    {
        proof {
            reveal_strlit("EW");
            reveal_strlit("SN");
            assert("EW"@ =~= seq!['E', 'W']);
            assert("SN"@ =~= seq!['S', 'N']);
        }
        match self {
            TeamId::Ew => "EW",
            TeamId::Sn => "SN",
        }
    }
}

/// Something kept for each seat, or not.
#[derive(Debug)]
pub struct PerSeat<T> {
    pub e: Option<T>,
    pub s: Option<T>,
    pub w: Option<T>,
    pub n: Option<T>,
}

impl<T> PerSeat<T> {
    /// What a seat holds.
    pub open spec fn at(self, seat: Seat) -> Option<T> {
        match seat {
            Seat::E => self.e,
            Seat::S => self.s,
            Seat::W => self.w,
            Seat::N => self.n,
        }
    }

    /// Nothing at any seat.
    pub fn empty() -> (map: PerSeat<T>)
        ensures
            forall|seat: Seat| #[trigger] map.at(seat) is None,
    {
        PerSeat { e: None, s: None, w: None, n: None }
    }

    /// What a seat holds.
    pub fn get(&self, seat: Seat) -> (value: Option<&T>)
        ensures
            match value {
                Some(v) => self.at(seat) == Some(*v),
                None => self.at(seat) is None,
            },
    {
        match seat {
            Seat::E => self.e.as_ref(),
            Seat::S => self.s.as_ref(),
            Seat::W => self.w.as_ref(),
            Seat::N => self.n.as_ref(),
        }
    }

    /// Gives a seat something to hold.
    pub fn insert(&mut self, seat: Seat, value: T)
        ensures
            forall|other: Seat| #[trigger]
                final(self).at(other) == if other == seat {
                    Some(value)
                } else {
                    old(self).at(other)
                },
    {
        match seat {
            Seat::E => {
                self.e = Some(value);
            },
            Seat::S => {
                self.s = Some(value);
            },
            Seat::W => {
                self.w = Some(value);
            },
            Seat::N => {
                self.n = Some(value);
            },
        }
    }
}

} // verus!
