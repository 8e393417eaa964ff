use vstd::prelude::*;

verus! {

/// Sense of rotation for a circling command.
#[derive(Debug, Clone, Copy, PartialEq, Eq, Structural, Default)]
pub enum CircleDirection {
    #[default]
    Clockwise,
    CounterClockwise,
}

/// Four-way compass direction, used for airport launch directions.
#[derive(Debug, Clone, Copy, PartialEq, Eq, Structural)]
pub enum CardinalDirection {
    North,
    South,
    East,
    West,
}

/// Eight-way compass direction, used for plane headings.
#[derive(Debug, Clone, Copy, PartialEq, Eq, Structural)]
pub enum OrdinalDirection {
    North,
    South,
    East,
    West,
    NorthEast,
    SouthEast,
    NorthWest,
    SouthWest,
}

impl CardinalDirection {
    /// Single-character arrow shown for this direction.
    pub open spec fn arrow_spec(self) -> Seq<char> {
        match self {
            CardinalDirection::North => "^"@,
            CardinalDirection::South => "v"@,
            CardinalDirection::East => ">"@,
            CardinalDirection::West => "<"@,
        }
    }

    pub fn arrow(self) -> (r: &'static str)
        ensures
            r@ == self.arrow_spec(),
    {
        match self {
            CardinalDirection::North => "^",
            CardinalDirection::South => "v",
            CardinalDirection::East => ">",
            CardinalDirection::West => "<",
        }
    }

    /// The same direction as an eight-way heading.
    pub fn widen(self) -> (r: OrdinalDirection)
        ensures
            r == self.widen_spec(),
    {
        match self {
            CardinalDirection::North => OrdinalDirection::North,
            CardinalDirection::South => OrdinalDirection::South,
            CardinalDirection::East => OrdinalDirection::East,
            CardinalDirection::West => OrdinalDirection::West,
        }
    }

    pub open spec fn widen_spec(self) -> OrdinalDirection {
        match self {
            CardinalDirection::North => OrdinalDirection::North,
            CardinalDirection::South => OrdinalDirection::South,
            CardinalDirection::East => OrdinalDirection::East,
            CardinalDirection::West => OrdinalDirection::West,
        }
    }
}

impl OrdinalDirection {
    /// Index of the direction on the compass rose, in clockwise
    /// eighth-turns starting from North.
    pub open spec fn idx(self) -> int {
        match self {
            OrdinalDirection::North => 0,
            OrdinalDirection::NorthEast => 1,
            OrdinalDirection::East => 2,
            OrdinalDirection::SouthEast => 3,
            OrdinalDirection::South => 4,
            OrdinalDirection::SouthWest => 5,
            OrdinalDirection::West => 6,
            OrdinalDirection::NorthWest => 7,
        }
    }

    /// The direction whose compass index is `i`.
    pub open spec fn from_idx(i: int) -> OrdinalDirection {
        if i == 0 {
            OrdinalDirection::North
        } else if i == 1 {
            OrdinalDirection::NorthEast
        } else if i == 2 {
            OrdinalDirection::East
        } else if i == 3 {
            OrdinalDirection::SouthEast
        } else if i == 4 {
            OrdinalDirection::South
        } else if i == 5 {
            OrdinalDirection::SouthWest
        } else if i == 6 {
            OrdinalDirection::West
        } else {
            OrdinalDirection::NorthWest
        }
    }

    /// Unit grid step in this direction; y grows southward.
    pub open spec fn offset_spec(self) -> (i16, i16) {
        match self {
            OrdinalDirection::North => (0i16, -1i16),
            OrdinalDirection::South => (0i16, 1i16),
            OrdinalDirection::East => (1i16, 0i16),
            OrdinalDirection::West => (-1i16, 0i16),
            OrdinalDirection::NorthEast => (1i16, -1i16),
            OrdinalDirection::SouthEast => (1i16, 1i16),
            OrdinalDirection::NorthWest => (-1i16, -1i16),
            OrdinalDirection::SouthWest => (-1i16, 1i16),
        }
    }

    pub fn as_offset(&self) -> (r: (i16, i16))
        ensures
            r == self.offset_spec(),
            -1 <= r.0 <= 1 && -1 <= r.1 <= 1,
    {
        match self {
            OrdinalDirection::North => (0, -1),
            OrdinalDirection::South => (0, 1),
            OrdinalDirection::East => (1, 0),
            OrdinalDirection::West => (-1, 0),
            OrdinalDirection::NorthEast => (1, -1),
            OrdinalDirection::SouthEast => (1, 1),
            OrdinalDirection::NorthWest => (-1, -1),
            OrdinalDirection::SouthWest => (-1, 1),
        }
    }

    /// One step of turning from `self` toward `target`: a heading at
    /// most a quarter turn away is taken directly; anything further is
    /// approached by a quarter turn, clockwise when the target is
    /// clockwise of `self` or exactly opposite.
    pub open spec fn rotate_toward_spec(self, target: OrdinalDirection) -> OrdinalDirection {
        let d = (target.idx() - self.idx() + 8) % 8;
        if d <= 2 || d >= 6 {
            target
        } else if d == 5 {
            Self::from_idx((self.idx() + 6) % 8)
        } else {
            Self::from_idx((self.idx() + 2) % 8)
        }
    }

    pub fn rotate_toward(self, target: OrdinalDirection) -> (r: OrdinalDirection)
        ensures
            r == self.rotate_toward_spec(target),
            ({
                let d = (target.idx() - self.idx() + 8) % 8;
                &&& (d <= 2 || d >= 6) ==> r == target
                &&& (d == 3 || d == 4) ==> r.idx() == (self.idx() + 2) % 8
                &&& d == 5 ==> r.idx() == (self.idx() + 6) % 8
            }),
    {
        let sd: u16 = self.idx_exec();
        let td: u16 = target.idx_exec();
        let d: u16 = (td + 8 - sd) % 8;
        if d <= 2 || d >= 6 {
            target
        } else if d == 5 {
            Self::from_idx_exec((sd + 6) % 8)
        } else {
            Self::from_idx_exec((sd + 2) % 8)
        }
    }

    /// Compass index as an executable value.
    pub fn idx_exec(self) -> (r: u16)
        ensures
            r == self.idx(),
            r < 8,
    {
        match self {
            OrdinalDirection::North => 0,
            OrdinalDirection::NorthEast => 1,
            OrdinalDirection::East => 2,
            OrdinalDirection::SouthEast => 3,
            OrdinalDirection::South => 4,
            OrdinalDirection::SouthWest => 5,
            OrdinalDirection::West => 6,
            OrdinalDirection::NorthWest => 7,
        }
    }

    /// Direction with the given compass index.
    pub fn from_idx_exec(i: u16) -> (r: OrdinalDirection)
        requires
            i < 8,
        ensures
            r == Self::from_idx(i as int),
    {
        if i == 0 {
            OrdinalDirection::North
        } else if i == 1 {
            OrdinalDirection::NorthEast
        } else if i == 2 {
            OrdinalDirection::East
        } else if i == 3 {
            OrdinalDirection::SouthEast
        } else if i == 4 {
            OrdinalDirection::South
        } else if i == 5 {
            OrdinalDirection::SouthWest
        } else if i == 6 {
            OrdinalDirection::West
        } else {
            OrdinalDirection::NorthWest
        }
    }

    /// Quarter turn in the given rotational sense.
    pub open spec fn rotated_90_spec(self, direction: CircleDirection) -> OrdinalDirection {
        if direction is Clockwise {
            Self::from_idx((self.idx() + 2) % 8)
        } else {
            Self::from_idx((self.idx() + 6) % 8)
        }
    }

    pub fn rotated_90(&self, direction: CircleDirection) -> (r: OrdinalDirection)
        ensures
            r == self.rotated_90_spec(direction),
            direction is Clockwise ==> r.idx() == (self.idx() + 2) % 8,
            direction is CounterClockwise ==> r.idx() == (self.idx() + 6) % 8,
    {
        let step: u16 = match direction {
            CircleDirection::Clockwise => 2,
            CircleDirection::CounterClockwise => 6,
        };
        Self::from_idx_exec((self.idx_exec() + step) % 8)
    }

    /// The same heading as a four-way direction, for the four
    /// cardinal headings; the diagonals have none.
    pub fn narrow(self) -> (r: Option<CardinalDirection>)
        ensures
            match r {
                Some(c) => c.widen_spec() == self,
                None => self.idx() % 2 == 1,
            },
    {
        match self {
            OrdinalDirection::North => Some(CardinalDirection::North),
            OrdinalDirection::South => Some(CardinalDirection::South),
            OrdinalDirection::East => Some(CardinalDirection::East),
            OrdinalDirection::West => Some(CardinalDirection::West),
            _ => None,
        }
    }

    /// Heading in degrees, clockwise from North.
    pub fn to_deg(&self) -> (r: u16)
        ensures
            r == 45 * self.idx(),
    {
        match self {
            OrdinalDirection::North => 0,
            OrdinalDirection::NorthEast => 45,
            OrdinalDirection::East => 90,
            OrdinalDirection::SouthEast => 135,
            OrdinalDirection::South => 180,
            OrdinalDirection::SouthWest => 225,
            OrdinalDirection::West => 270,
            OrdinalDirection::NorthWest => 315,
        }
    }
}

} // verus!
