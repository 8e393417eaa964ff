use vstd::prelude::*;
use vstd::string::*;

use crate::direction::{CircleDirection, OrdinalDirection};
use crate::text::{dec_digits, u16_to_string};

verus! {

/// The erase (backspace) control character.
pub const ERASE: char = '\x7f';

/// Whether a character is a decimal digit.
pub open spec fn is_dec_digit(c: char) -> bool {
    '0' <= c && c <= '9'
}

/// Numeric value of a decimal digit character.
pub open spec fn digit_val(c: char) -> u16 {
    (c as u16 - 48) as u16
}

/// Outcome of feeding one keystroke to a fragment.
///
/// `Handled` means the fragment consumed the character. `Unhandled`
/// means it is not valid here and the caller may reinterpret it.
/// `Back` means the fragment was already in its initial sub-state when
/// erased, and the structural parent must unwind.
#[derive(Debug, Clone, Copy, PartialEq, Eq, Structural)]
pub enum InputHandling {
    Handled,
    Unhandled,
    Back,
}

/// Draft altitude directive: absolute, climb-by, or descend-by.
#[derive(Debug, Clone, Copy, PartialEq, Eq, Structural)]
pub enum Altitude {
    Undefined,
    Plus(Option<u16>),
    Minus(Option<u16>),
    To(u16),
}

/// Finalized altitude directive.
#[derive(Debug, Clone, Copy, PartialEq, Eq, Structural)]
pub enum CompleteAltitude {
    Plus(u16),
    Minus(u16),
    To(u16),
}

impl Altitude {
    /// One keystroke of the altitude ladder.
    pub open spec fn step(self, c: char) -> (Altitude, InputHandling) {
        if c == ERASE {
            match self {
                Altitude::Undefined => (self, InputHandling::Back),
                Altitude::To(_) => (Altitude::Undefined, InputHandling::Handled),
                Altitude::Plus(v) => (
                    if v is Some {
                        Altitude::Plus(None)
                    } else {
                        Altitude::Undefined
                    },
                    InputHandling::Handled,
                ),
                Altitude::Minus(v) => (
                    if v is Some {
                        Altitude::Minus(None)
                    } else {
                        Altitude::Undefined
                    },
                    InputHandling::Handled,
                ),
            }
        } else if is_dec_digit(c) {
            match self {
                Altitude::Undefined => (Altitude::To(digit_val(c)), InputHandling::Handled),
                Altitude::Plus(v) => (
                    if v is None {
                        Altitude::Plus(Some(digit_val(c)))
                    } else {
                        self
                    },
                    if v is None {
                        InputHandling::Handled
                    } else {
                        InputHandling::Unhandled
                    },
                ),
                Altitude::Minus(v) => (
                    if v is None {
                        Altitude::Minus(Some(digit_val(c)))
                    } else {
                        self
                    },
                    if v is None {
                        InputHandling::Handled
                    } else {
                        InputHandling::Unhandled
                    },
                ),
                _ => (self, InputHandling::Unhandled),
            }
        } else if c == 'c' || c == '+' || c == '=' {
            match self {
                Altitude::Undefined => (Altitude::Plus(None), InputHandling::Handled),
                _ => (self, InputHandling::Unhandled),
            }
        } else if c == 'd' || c == '-' || c == '_' {
            match self {
                Altitude::Undefined => (Altitude::Minus(None), InputHandling::Handled),
                _ => (self, InputHandling::Unhandled),
            }
        } else {
            (self, InputHandling::Unhandled)
        }
    }

    pub fn input(&mut self, letter: char) -> (r: InputHandling)
        ensures
            (*final(self), r) == (*old(self)).step(letter),
    {
        let s = *self;
        if letter == ERASE {
            match s {
                Altitude::Undefined => InputHandling::Back,
                Altitude::To(_) => {
                    *self = Altitude::Undefined;
                    InputHandling::Handled
                },
                Altitude::Plus(v) => {
                    *self = if v.is_some() {
                        Altitude::Plus(None)
                    } else {
                        Altitude::Undefined
                    };
                    InputHandling::Handled
                },
                Altitude::Minus(v) => {
                    *self = if v.is_some() {
                        Altitude::Minus(None)
                    } else {
                        Altitude::Undefined
                    };
                    InputHandling::Handled
                },
            }
        } else if '0' <= letter && letter <= '9' {
            match s {
                Altitude::Undefined => {
                    *self = Altitude::To(crate::digit_as_num(letter));
                    InputHandling::Handled
                },
                Altitude::Plus(v) => {
                    if v.is_none() {
                        *self = Altitude::Plus(Some(crate::digit_as_num(letter)));
                        InputHandling::Handled
                    } else {
                        InputHandling::Unhandled
                    }
                },
                Altitude::Minus(v) => {
                    if v.is_none() {
                        *self = Altitude::Minus(Some(crate::digit_as_num(letter)));
                        InputHandling::Handled
                    } else {
                        InputHandling::Unhandled
                    }
                },
                Altitude::To(_) => InputHandling::Unhandled,
            }
        } else if letter == 'c' || letter == '+' || letter == '=' {
            match s {
                Altitude::Undefined => {
                    *self = Altitude::Plus(None);
                    InputHandling::Handled
                },
                _ => InputHandling::Unhandled,
            }
        } else if letter == 'd' || letter == '-' || letter == '_' {
            match s {
                Altitude::Undefined => {
                    *self = Altitude::Minus(None);
                    InputHandling::Handled
                },
                _ => InputHandling::Unhandled,
            }
        } else {
            InputHandling::Unhandled
        }
    }

    pub open spec fn to_complete_spec(self) -> Option<CompleteAltitude> {
        match self {
            Altitude::To(v) => Some(CompleteAltitude::To(v)),
            Altitude::Plus(Some(v)) => Some(CompleteAltitude::Plus(v)),
            Altitude::Minus(Some(v)) => Some(CompleteAltitude::Minus(v)),
            _ => None,
        }
    }

    pub fn to_complete(&self) -> (r: Option<CompleteAltitude>)
        ensures
            r == self.to_complete_spec(),
    {
        match *self {
            Altitude::To(v) => Some(CompleteAltitude::To(v)),
            Altitude::Plus(Some(v)) => Some(CompleteAltitude::Plus(v)),
            Altitude::Minus(Some(v)) => Some(CompleteAltitude::Minus(v)),
            _ => None,
        }
    }
}

/// Draft turn directive.
#[derive(Debug, Clone, Copy, PartialEq, Eq, Structural)]
pub enum Turn {
    Unset,
    ToHeading(OrdinalDirection),
}

/// Finalized turn directive.
#[derive(Debug, Clone, Copy, PartialEq, Eq, Structural)]
pub enum CompleteTurn {
    ToHeading(OrdinalDirection),
}

impl Turn {
    /// Heading selected by a turn keystroke, if any: one letter layout
    /// and the numeric keypad layout, both eight-way.
    pub open spec fn key_heading(c: char) -> Option<OrdinalDirection> {
        if c == 'w' || c == '8' {
            Some(OrdinalDirection::North)
        } else if c == 'e' || c == '9' {
            Some(OrdinalDirection::NorthEast)
        } else if c == 'd' || c == '6' {
            Some(OrdinalDirection::East)
        } else if c == 'c' || c == '3' {
            Some(OrdinalDirection::SouthEast)
        } else if c == 'x' || c == '2' {
            Some(OrdinalDirection::South)
        } else if c == 'z' || c == '1' {
            Some(OrdinalDirection::SouthWest)
        } else if c == 'a' || c == '4' {
            Some(OrdinalDirection::West)
        } else if c == 'q' || c == '7' {
            Some(OrdinalDirection::NorthWest)
        } else {
            None
        }
    }

    pub open spec fn step(self, c: char) -> (Turn, InputHandling) {
        if c == ERASE {
            match self {
                Turn::Unset => (self, InputHandling::Back),
                Turn::ToHeading(_) => (Turn::Unset, InputHandling::Handled),
            }
        } else {
            match self {
                Turn::Unset => {
                    match Self::key_heading(c) {
                        Some(h) => (Turn::ToHeading(h), InputHandling::Handled),
                        None => (self, InputHandling::Unhandled),
                    }
                },
                _ => (self, InputHandling::Unhandled),
            }
        }
    }

    pub fn key_heading_exec(c: char) -> (r: Option<OrdinalDirection>)
        ensures
            r == Self::key_heading(c),
    {
        if c == 'w' || c == '8' {
            Some(OrdinalDirection::North)
        } else if c == 'e' || c == '9' {
            Some(OrdinalDirection::NorthEast)
        } else if c == 'd' || c == '6' {
            Some(OrdinalDirection::East)
        } else if c == 'c' || c == '3' {
            Some(OrdinalDirection::SouthEast)
        } else if c == 'x' || c == '2' {
            Some(OrdinalDirection::South)
        } else if c == 'z' || c == '1' {
            Some(OrdinalDirection::SouthWest)
        } else if c == 'a' || c == '4' {
            Some(OrdinalDirection::West)
        } else if c == 'q' || c == '7' {
            Some(OrdinalDirection::NorthWest)
        } else {
            None
        }
    }

    pub fn input(&mut self, letter: char) -> (r: InputHandling)
        ensures
            (*final(self), r) == (*old(self)).step(letter),
    {
        let s = *self;
        if letter == ERASE {
            match s {
                Turn::Unset => InputHandling::Back,
                Turn::ToHeading(_) => {
                    *self = Turn::Unset;
                    InputHandling::Handled
                },
            }
        } else {
            match s {
                Turn::Unset => {
                    match Self::key_heading_exec(letter) {
                        Some(h) => {
                            *self = Turn::ToHeading(h);
                            InputHandling::Handled
                        },
                        None => InputHandling::Unhandled,
                    }
                },
                _ => InputHandling::Unhandled,
            }
        }
    }

    pub open spec fn to_complete_spec(self) -> Option<CompleteTurn> {
        match self {
            Turn::ToHeading(d) => Some(CompleteTurn::ToHeading(d)),
            _ => None,
        }
    }

    pub fn to_complete(&self) -> (r: Option<CompleteTurn>)
        ensures
            r == self.to_complete_spec(),
    {
        match *self {
            Turn::ToHeading(d) => Some(CompleteTurn::ToHeading(d)),
            _ => None,
        }
    }
}

/// Draft circling directive.
#[derive(Debug, Clone, Copy, PartialEq, Eq, Structural)]
pub enum Circle {
    Unset,
    Clockwise,
    CounterClockwise,
}

/// Finalized circling directive.
#[derive(Debug, Clone, Copy, PartialEq, Eq, Structural)]
pub enum CompleteCircle {
    Clockwise,
    CounterClockwise,
}

impl Circle {
    pub open spec fn step(self, c: char) -> (Circle, InputHandling) {
        if c == ERASE {
            match self {
                Circle::Unset => (self, InputHandling::Back),
                _ => (Circle::Unset, InputHandling::Handled),
            }
        } else if c == 'q' {
            match self {
                Circle::Unset => (Circle::CounterClockwise, InputHandling::Handled),
                _ => (self, InputHandling::Unhandled),
            }
        } else if c == 'e' {
            match self {
                Circle::Unset => (Circle::Clockwise, InputHandling::Handled),
                _ => (self, InputHandling::Unhandled),
            }
        } else {
            (self, InputHandling::Unhandled)
        }
    }

    pub fn input(&mut self, letter: char) -> (r: InputHandling)
        ensures
            (*final(self), r) == (*old(self)).step(letter),
    {
        let s = *self;
        if letter == ERASE {
            match s {
                Circle::Unset => InputHandling::Back,
                _ => {
                    *self = Circle::Unset;
                    InputHandling::Handled
                },
            }
        } else if letter == 'q' {
            match s {
                Circle::Unset => {
                    *self = Circle::CounterClockwise;
                    InputHandling::Handled
                },
                _ => InputHandling::Unhandled,
            }
        } else if letter == 'e' {
            match s {
                Circle::Unset => {
                    *self = Circle::Clockwise;
                    InputHandling::Handled
                },
                _ => InputHandling::Unhandled,
            }
        } else {
            InputHandling::Unhandled
        }
    }

    /// A circling directive with no sense chosen is still an unset
    /// leaf, so it does not finalize.
    pub open spec fn to_complete_spec(self) -> Option<CompleteCircle> {
        match self {
            Circle::Clockwise => Some(CompleteCircle::Clockwise),
            Circle::CounterClockwise => Some(CompleteCircle::CounterClockwise),
            Circle::Unset => None,
        }
    }

    pub fn to_complete(&self) -> (r: Option<CompleteCircle>)
        ensures
            r == self.to_complete_spec(),
    {
        match *self {
            Circle::Clockwise => Some(CompleteCircle::Clockwise),
            Circle::CounterClockwise => Some(CompleteCircle::CounterClockwise),
            Circle::Unset => None,
        }
    }
}

impl CompleteCircle {
    pub open spec fn as_direction_spec(self) -> CircleDirection {
        if self is Clockwise {
            CircleDirection::Clockwise
        } else {
            CircleDirection::CounterClockwise
        }
    }

    pub fn as_direction(self) -> (r: CircleDirection)
        ensures
            r == self.as_direction_spec(),
    {
        match self {
            CompleteCircle::Clockwise => CircleDirection::Clockwise,
            CompleteCircle::CounterClockwise => CircleDirection::CounterClockwise,
        }
    }
}

/// Display-mode directive; it has no partial state and is always
/// complete.
#[derive(Debug, Clone, Copy, PartialEq, Eq, Structural)]
pub enum SetVisibility {
    Mark,
    Unmark,
    Ignore,
}

impl SetVisibility {
    pub open spec fn step(self, c: char) -> (SetVisibility, InputHandling) {
        if c == ERASE {
            (self, InputHandling::Back)
        } else {
            (self, InputHandling::Unhandled)
        }
    }

    pub fn input(&mut self, letter: char) -> (r: InputHandling)
        ensures
            (*final(self), r) == (*old(self)).step(letter),
    {
        if letter == ERASE {
            InputHandling::Back
        } else {
            InputHandling::Unhandled
        }
    }

    pub open spec fn to_complete_spec(self) -> Option<SetVisibility> {
        Some(self)
    }

    pub fn to_complete(&self) -> (r: Option<SetVisibility>)
        ensures
            r == self.to_complete_spec(),
    {
        Some(*self)
    }
}

/// Draft beacon condition: a bare digit, or an explicit beacon prefix
/// awaiting its number.
#[derive(Debug, Clone, Copy, PartialEq, Eq, Structural)]
pub enum PointOfInterest {
    Default(u16),
    Beacon(Option<u16>),
}

/// Finalized beacon condition.
#[derive(Debug, Clone, Copy, PartialEq, Eq, Structural)]
pub enum CompletePointOfInterest {
    Beacon(u16),
}

impl PointOfInterest {
    pub open spec fn step(self, c: char) -> (PointOfInterest, InputHandling) {
        if c == ERASE {
            match self {
                PointOfInterest::Beacon(Some(_)) => (
                    PointOfInterest::Beacon(None),
                    InputHandling::Handled,
                ),
                _ => (self, InputHandling::Back),
            }
        } else if is_dec_digit(c) {
            match self {
                PointOfInterest::Beacon(None) => (
                    PointOfInterest::Beacon(Some(digit_val(c))),
                    InputHandling::Handled,
                ),
                _ => (self, InputHandling::Unhandled),
            }
        } else {
            (self, InputHandling::Unhandled)
        }
    }

    pub fn input(&mut self, letter: char) -> (r: InputHandling)
        ensures
            (*final(self), r) == (*old(self)).step(letter),
    {
        let s = *self;
        if letter == ERASE {
            match s {
                PointOfInterest::Beacon(Some(_)) => {
                    *self = PointOfInterest::Beacon(None);
                    InputHandling::Handled
                },
                _ => InputHandling::Back,
            }
        } else if '0' <= letter && letter <= '9' {
            match s {
                PointOfInterest::Beacon(None) => {
                    *self = PointOfInterest::Beacon(Some(crate::digit_as_num(letter)));
                    InputHandling::Handled
                },
                _ => InputHandling::Unhandled,
            }
        } else {
            InputHandling::Unhandled
        }
    }

    pub open spec fn to_complete_spec(self) -> Option<CompletePointOfInterest> {
        match self {
            PointOfInterest::Default(n) => Some(CompletePointOfInterest::Beacon(n)),
            PointOfInterest::Beacon(Some(n)) => Some(CompletePointOfInterest::Beacon(n)),
            PointOfInterest::Beacon(None) => None,
        }
    }

    pub fn to_complete(&self) -> (r: Option<CompletePointOfInterest>)
        ensures
            r == self.to_complete_spec(),
    {
        match *self {
            PointOfInterest::Default(n) => Some(CompletePointOfInterest::Beacon(n)),
            PointOfInterest::Beacon(Some(n)) => Some(CompletePointOfInterest::Beacon(n)),
            PointOfInterest::Beacon(None) => None,
        }
    }
}

/// Draft gate: defer the tail until the beacon condition holds.
#[derive(Debug, PartialEq)]
pub struct At {
    pub tail: Box<CommandSegment>,
    pub poi: Option<PointOfInterest>,
}

/// Finalized gate.
#[derive(Debug, PartialEq)]
pub struct CompleteAt {
    pub tail: Box<CompleteCommandSegment>,
    pub poi: CompletePointOfInterest,
}

impl At {
    pub open spec fn step(self, c: char) -> (At, InputHandling) {
        match self.poi {
            None => {
                if c == ERASE {
                    (self, InputHandling::Back)
                } else if c == 'b' || c == '*' {
                    (
                        At { tail: self.tail, poi: Some(PointOfInterest::Beacon(None)) },
                        InputHandling::Handled,
                    )
                } else if is_dec_digit(c) {
                    (
                        At { tail: self.tail, poi: Some(PointOfInterest::Default(digit_val(c))) },
                        InputHandling::Handled,
                    )
                } else {
                    (self, InputHandling::Unhandled)
                }
            },
            Some(p) => {
                let (p2, h) = p.step(c);
                if h is Back {
                    (At { tail: self.tail, poi: None }, InputHandling::Handled)
                } else {
                    (At { tail: self.tail, poi: Some(p2) }, h)
                }
            },
        }
    }

    pub fn input(&mut self, letter: char) -> (r: InputHandling)
        ensures
            (*final(self), r) == (*old(self)).step(letter),
    {
        match &mut self.poi {
            None => {
                if letter == ERASE {
                    InputHandling::Back
                } else if letter == 'b' || letter == '*' {
                    self.poi = Some(PointOfInterest::Beacon(None));
                    InputHandling::Handled
                } else if '0' <= letter && letter <= '9' {
                    self.poi = Some(PointOfInterest::Default(crate::digit_as_num(letter)));
                    InputHandling::Handled
                } else {
                    InputHandling::Unhandled
                }
            },
            Some(p) => {
                match p.input(letter) {
                    InputHandling::Handled => InputHandling::Handled,
                    InputHandling::Unhandled => InputHandling::Unhandled,
                    InputHandling::Back => {
                        self.poi = None;
                        InputHandling::Handled
                    },
                }
            },
        }
    }

    pub open spec fn to_complete_spec(self) -> Option<CompleteAt>
        decreases self, 0int,
    {
        match ((*self.tail).to_complete_spec(), self.poi) {
            (Some(tail), Some(p)) => {
                match p.to_complete_spec() {
                    Some(poi) => Some(CompleteAt { tail: Box::new(tail), poi }),
                    None => None,
                }
            },
            _ => None,
        }
    }

    pub fn to_complete(&self) -> (r: Option<CompleteAt>)
        ensures
            r == self.to_complete_spec(),
        decreases *self, 0int,
    {
        let tail = match (*self.tail).to_complete() {
            Some(t) => t,
            None => {
                return None;
            },
        };
        let p = match &self.poi {
            Some(p) => p,
            None => {
                return None;
            },
        };
        match p.to_complete() {
            Some(poi) => Some(CompleteAt { tail: Box::new(tail), poi }),
            None => None,
        }
    }
}

/// Draft delay: defer the tail by a tick countdown.
#[derive(Debug, PartialEq)]
pub struct In {
    pub tail: Box<CommandSegment>,
    pub time: Option<u16>,
}

/// Finalized delay.
#[derive(Debug, PartialEq)]
pub struct CompleteIn {
    pub tail: Box<CompleteCommandSegment>,
    pub time: u16,
}

impl In {
    pub open spec fn step(self, c: char) -> (In, InputHandling) {
        match self.time {
            None => {
                if c == ERASE {
                    (self, InputHandling::Back)
                } else if is_dec_digit(c) {
                    (In { tail: self.tail, time: Some(digit_val(c)) }, InputHandling::Handled)
                } else {
                    (self, InputHandling::Unhandled)
                }
            },
            Some(_) => {
                if c == ERASE {
                    (In { tail: self.tail, time: None }, InputHandling::Handled)
                } else {
                    (self, InputHandling::Unhandled)
                }
            },
        }
    }

    pub fn input(&mut self, letter: char) -> (r: InputHandling)
        ensures
            (*final(self), r) == (*old(self)).step(letter),
    {
        match self.time {
            None => {
                if letter == ERASE {
                    InputHandling::Back
                } else if '0' <= letter && letter <= '9' {
                    self.time = Some(crate::digit_as_num(letter));
                    InputHandling::Handled
                } else {
                    InputHandling::Unhandled
                }
            },
            Some(_) => {
                if letter == ERASE {
                    self.time = None;
                    InputHandling::Handled
                } else {
                    InputHandling::Unhandled
                }
            },
        }
    }

    pub open spec fn to_complete_spec(self) -> Option<CompleteIn>
        decreases self, 0int,
    {
        match (self.time, (*self.tail).to_complete_spec()) {
            (Some(delay), Some(tail)) => Some(CompleteIn { tail: Box::new(tail), time: delay }),
            _ => None,
        }
    }

    pub fn to_complete(&self) -> (r: Option<CompleteIn>)
        ensures
            r == self.to_complete_spec(),
        decreases *self, 0int,
    {
        let delay = match self.time {
            Some(d) => d,
            None => {
                return None;
            },
        };
        match (*self.tail).to_complete() {
            Some(tail) => Some(CompleteIn { tail: Box::new(tail), time: delay }),
            None => None,
        }
    }
}

/// Draft sequence: input flows into the right sub-tree.
#[derive(Debug, PartialEq)]
pub struct And {
    pub left: Box<CommandSegment>,
    pub right: Box<CommandSegment>,
}

/// Finalized sequence.
#[derive(Debug, PartialEq)]
pub struct CompleteAnd {
    pub left: Box<CompleteCommandSegment>,
    pub right: Box<CompleteCommandSegment>,
}

impl And {
    pub open spec fn to_complete_spec(self) -> Option<CompleteAnd>
        decreases self, 0int,
    {
        match ((*self.left).to_complete_spec(), (*self.right).to_complete_spec()) {
            (Some(left), Some(right)) => Some(
                CompleteAnd { left: Box::new(left), right: Box::new(right) },
            ),
            _ => None,
        }
    }

    pub fn to_complete(&self) -> (r: Option<CompleteAnd>)
        ensures
            r == self.to_complete_spec(),
        decreases *self, 0int,
    {
        let left = match (*self.left).to_complete() {
            Some(l) => l,
            None => {
                return None;
            },
        };
        match (*self.right).to_complete() {
            Some(right) => Some(CompleteAnd { left: Box::new(left), right: Box::new(right) }),
            None => None,
        }
    }
}

/// Draft indirection: a reference to a numbered slot.
#[derive(Debug, Clone, Copy, PartialEq, Eq, Structural)]
pub struct Ref(pub Option<u16>);

/// Finalized indirection.
#[derive(Debug, Clone, Copy, PartialEq, Eq, Structural)]
pub struct CompleteRef(pub u16);

impl Ref {
    pub open spec fn step(self, c: char) -> (Ref, InputHandling) {
        if c == ERASE {
            match self.0 {
                None => (self, InputHandling::Back),
                Some(_) => (Ref(None), InputHandling::Handled),
            }
        } else if is_dec_digit(c) {
            match self.0 {
                None => (Ref(Some(digit_val(c))), InputHandling::Handled),
                Some(_) => (self, InputHandling::Unhandled),
            }
        } else {
            (self, InputHandling::Unhandled)
        }
    }

    pub fn input(&mut self, letter: char) -> (r: InputHandling)
        ensures
            (*final(self), r) == (*old(self)).step(letter),
    {
        if letter == ERASE {
            match self.0 {
                None => InputHandling::Back,
                Some(_) => {
                    self.0 = None;
                    InputHandling::Handled
                },
            }
        } else if '0' <= letter && letter <= '9' {
            match self.0 {
                None => {
                    self.0 = Some(crate::digit_as_num(letter));
                    InputHandling::Handled
                },
                Some(_) => InputHandling::Unhandled,
            }
        } else {
            InputHandling::Unhandled
        }
    }

    pub open spec fn to_complete_spec(self) -> Option<CompleteRef> {
        match self.0 {
            Some(n) => Some(CompleteRef(n)),
            None => None,
        }
    }

    pub fn to_complete(&self) -> (r: Option<CompleteRef>)
        ensures
            r == self.to_complete_spec(),
    {
        match self.0 {
            Some(n) => Some(CompleteRef(n)),
            None => None,
        }
    }
}

/// Draft command body: one grammar node, possibly incomplete.
#[derive(Debug, PartialEq)]
pub enum CommandSegment {
    Empty,
    Altitude(Altitude),
    Turn(Turn),
    Circle(Circle),
    SetVisibility(SetVisibility),
    At(At),
    And(And),
    In(In),
    Ref(Ref),
}

/// Finalized command body.
#[derive(Debug, PartialEq)]
pub enum CompleteCommandSegment {
    Altitude(CompleteAltitude),
    Turn(CompleteTurn),
    Circle(CompleteCircle),
    SetVisibility(SetVisibility),
    At(CompleteAt),
    And(CompleteAnd),
    In(CompleteIn),
    Ref(CompleteRef),
    Empty,
}

impl CompleteCommandSegment {
    /// Whether the tree holds no indirection node. Reference
    /// resolution establishes this before a tree ever reaches an
    /// entity.
    pub open spec fn ref_free(self) -> bool
        decreases self,
    {
        match self {
            CompleteCommandSegment::Ref(_) => false,
            CompleteCommandSegment::At(a) => (*a.tail).ref_free(),
            CompleteCommandSegment::In(i) => (*i.tail).ref_free(),
            CompleteCommandSegment::And(a) => (*a.left).ref_free() && (*a.right).ref_free(),
            _ => true,
        }
    }

    /// An exact structural copy.
    pub fn duplicate(&self) -> (r: CompleteCommandSegment)
        ensures
            r == *self,
        decreases *self,
    {
        match self {
            CompleteCommandSegment::Empty => CompleteCommandSegment::Empty,
            CompleteCommandSegment::Altitude(a) => CompleteCommandSegment::Altitude(*a),
            CompleteCommandSegment::Turn(t) => CompleteCommandSegment::Turn(*t),
            CompleteCommandSegment::Circle(x) => CompleteCommandSegment::Circle(*x),
            CompleteCommandSegment::SetVisibility(v) => CompleteCommandSegment::SetVisibility(*v),
            CompleteCommandSegment::At(a) => CompleteCommandSegment::At(
                CompleteAt { tail: Box::new((*a.tail).duplicate()), poi: a.poi },
            ),
            CompleteCommandSegment::And(a) => CompleteCommandSegment::And(
                CompleteAnd {
                    left: Box::new((*a.left).duplicate()),
                    right: Box::new((*a.right).duplicate()),
                },
            ),
            CompleteCommandSegment::In(i) => CompleteCommandSegment::In(
                CompleteIn { tail: Box::new((*i.tail).duplicate()), time: i.time },
            ),
            CompleteCommandSegment::Ref(r) => CompleteCommandSegment::Ref(*r),
        }
    }
}

/// Whether a keystroke asks to wrap the current tree in a gate.
pub open spec fn wraps_at(c: char) -> bool {
    c == 'a' || c == '@'
}

/// Whether a keystroke asks to wrap the current tree in a sequence.
pub open spec fn wraps_and(c: char) -> bool {
    c == '&' || c == ';'
}

/// Whether a keystroke asks to wrap the current tree in a delay.
pub open spec fn wraps_in(c: char) -> bool {
    c == '#' || c == 'i'
}

impl CommandSegment {
    /// One keystroke on an empty tree: the first letter picks the
    /// fragment kind.
    pub open spec fn empty_step(c: char) -> (CommandSegment, InputHandling) {
        if c == ERASE {
            (CommandSegment::Empty, InputHandling::Back)
        } else if c == 'a' {
            (CommandSegment::Altitude(Altitude::Undefined), InputHandling::Handled)
        } else if c == 't' {
            (CommandSegment::Turn(Turn::Unset), InputHandling::Handled)
        } else if c == 'c' {
            (CommandSegment::Circle(Circle::Unset), InputHandling::Handled)
        } else if c == '%' {
            (CommandSegment::Ref(Ref(None)), InputHandling::Handled)
        } else if c == 'm' {
            (CommandSegment::SetVisibility(SetVisibility::Mark), InputHandling::Handled)
        } else if c == 'u' {
            (CommandSegment::SetVisibility(SetVisibility::Unmark), InputHandling::Handled)
        } else if c == 'i' {
            (CommandSegment::SetVisibility(SetVisibility::Ignore), InputHandling::Handled)
        } else {
            (CommandSegment::Empty, InputHandling::Unhandled)
        }
    }

    /// Collapse one structural level after an inner `Back`: a
    /// composite unwraps to its kept sub-tree, a leaf clears to empty.
    pub open spec fn unwrap_step(self) -> CommandSegment {
        match self {
            CommandSegment::At(a) => *a.tail,
            CommandSegment::And(a) => *a.left,
            CommandSegment::In(i) => *i.tail,
            _ => CommandSegment::Empty,
        }
    }

    /// One keystroke handed to the node itself, before any
    /// reinterpretation as a wrapping combinator.
    pub open spec fn inner_step(self, c: char) -> (CommandSegment, InputHandling)
        decreases self, 0int,
    {
        match self {
            CommandSegment::Empty => (self, InputHandling::Unhandled),
            CommandSegment::Altitude(a) => {
                let (a2, h) = a.step(c);
                (CommandSegment::Altitude(a2), h)
            },
            CommandSegment::Turn(t) => {
                let (t2, h) = t.step(c);
                (CommandSegment::Turn(t2), h)
            },
            CommandSegment::Circle(x) => {
                let (x2, h) = x.step(c);
                (CommandSegment::Circle(x2), h)
            },
            CommandSegment::SetVisibility(v) => {
                let (v2, h) = v.step(c);
                (CommandSegment::SetVisibility(v2), h)
            },
            CommandSegment::At(a) => {
                let (a2, h) = a.step(c);
                (CommandSegment::At(a2), h)
            },
            CommandSegment::In(i) => {
                let (i2, h) = i.step(c);
                (CommandSegment::In(i2), h)
            },
            CommandSegment::Ref(r) => {
                let (r2, h) = r.step(c);
                (CommandSegment::Ref(r2), h)
            },
            CommandSegment::And(a) => {
                if *a.right is Empty && c == ERASE {
                    (self, InputHandling::Back)
                } else {
                    let (r2, h) = (*a.right).step(c);
                    (CommandSegment::And(And { left: a.left, right: Box::new(r2) }), h)
                }
            },
        }
    }

    /// One keystroke on a draft tree. The node handles the character
    /// itself if it can; an unhandled character may instead wrap a
    /// finalizable tree in a gate, sequence or delay; an inner `Back`
    /// unwinds one structural level.
    pub open spec fn step(self, c: char) -> (CommandSegment, InputHandling)
        decreases self, 1int,
    {
        match self {
            CommandSegment::Empty => Self::empty_step(c),
            _ => {
                let (s2, h) = self.inner_step(c);
                if h is Handled {
                    (s2, InputHandling::Handled)
                } else if h is Back {
                    (self.unwrap_step(), InputHandling::Handled)
                } else if self.to_complete_spec() is Some {
                    if wraps_at(c) {
                        (
                            CommandSegment::At(At { tail: Box::new(self), poi: None }),
                            InputHandling::Handled,
                        )
                    } else if wraps_and(c) {
                        (
                            CommandSegment::And(
                                And {
                                    left: Box::new(self),
                                    right: Box::new(CommandSegment::Empty),
                                },
                            ),
                            InputHandling::Handled,
                        )
                    } else if wraps_in(c) {
                        (
                            CommandSegment::In(In { tail: Box::new(self), time: None }),
                            InputHandling::Handled,
                        )
                    } else {
                        (self, InputHandling::Unhandled)
                    }
                } else {
                    (self, InputHandling::Unhandled)
                }
            },
        }
    }

    pub open spec fn to_complete_spec(self) -> Option<CompleteCommandSegment>
        decreases self, 1int,
    {
        match self {
            CommandSegment::Empty => None,
            CommandSegment::Altitude(a) => {
                match a.to_complete_spec() {
                    Some(c) => Some(CompleteCommandSegment::Altitude(c)),
                    None => None,
                }
            },
            CommandSegment::Turn(t) => {
                match t.to_complete_spec() {
                    Some(c) => Some(CompleteCommandSegment::Turn(c)),
                    None => None,
                }
            },
            CommandSegment::Circle(x) => {
                match x.to_complete_spec() {
                    Some(c) => Some(CompleteCommandSegment::Circle(c)),
                    None => None,
                }
            },
            CommandSegment::SetVisibility(v) => Some(CompleteCommandSegment::SetVisibility(v)),
            CommandSegment::At(a) => {
                match a.to_complete_spec() {
                    Some(c) => Some(CompleteCommandSegment::At(c)),
                    None => None,
                }
            },
            CommandSegment::And(a) => {
                match a.to_complete_spec() {
                    Some(c) => Some(CompleteCommandSegment::And(c)),
                    None => None,
                }
            },
            CommandSegment::In(i) => {
                match i.to_complete_spec() {
                    Some(c) => Some(CompleteCommandSegment::In(c)),
                    None => None,
                }
            },
            CommandSegment::Ref(r) => {
                match r.to_complete_spec() {
                    Some(c) => Some(CompleteCommandSegment::Ref(c)),
                    None => None,
                }
            },
        }
    }

    pub fn to_complete(&self) -> (r: Option<CompleteCommandSegment>)
        ensures
            r == self.to_complete_spec(),
        decreases *self, 1int,
    {
        match self {
            CommandSegment::Empty => None,
            CommandSegment::Altitude(a) => {
                match a.to_complete() {
                    Some(c) => Some(CompleteCommandSegment::Altitude(c)),
                    None => None,
                }
            },
            CommandSegment::Turn(t) => {
                match t.to_complete() {
                    Some(c) => Some(CompleteCommandSegment::Turn(c)),
                    None => None,
                }
            },
            CommandSegment::Circle(x) => {
                match x.to_complete() {
                    Some(c) => Some(CompleteCommandSegment::Circle(c)),
                    None => None,
                }
            },
            CommandSegment::SetVisibility(v) => Some(CompleteCommandSegment::SetVisibility(*v)),
            CommandSegment::At(a) => {
                match a.to_complete() {
                    Some(c) => Some(CompleteCommandSegment::At(c)),
                    None => None,
                }
            },
            CommandSegment::And(a) => {
                match a.to_complete() {
                    Some(c) => Some(CompleteCommandSegment::And(c)),
                    None => None,
                }
            },
            CommandSegment::In(i) => {
                match i.to_complete() {
                    Some(c) => Some(CompleteCommandSegment::In(c)),
                    None => None,
                }
            },
            CommandSegment::Ref(r) => {
                match r.to_complete() {
                    Some(c) => Some(CompleteCommandSegment::Ref(c)),
                    None => None,
                }
            },
        }
    }

    /// An exact structural copy.
    pub fn duplicate(&self) -> (r: CommandSegment)
        ensures
            r == *self,
        decreases *self,
    {
        match self {
            CommandSegment::Empty => CommandSegment::Empty,
            CommandSegment::Altitude(a) => CommandSegment::Altitude(*a),
            CommandSegment::Turn(t) => CommandSegment::Turn(*t),
            CommandSegment::Circle(x) => CommandSegment::Circle(*x),
            CommandSegment::SetVisibility(v) => CommandSegment::SetVisibility(*v),
            CommandSegment::At(a) => CommandSegment::At(
                At { tail: Box::new((*a.tail).duplicate()), poi: a.poi },
            ),
            CommandSegment::And(a) => CommandSegment::And(
                And {
                    left: Box::new((*a.left).duplicate()),
                    right: Box::new((*a.right).duplicate()),
                },
            ),
            CommandSegment::In(i) => CommandSegment::In(
                In { tail: Box::new((*i.tail).duplicate()), time: i.time },
            ),
            CommandSegment::Ref(r) => CommandSegment::Ref(*r),
        }
    }

    /// The sub-tree that currently receives input: sequences focus
    /// their right side.
    pub open spec fn current_segment_spec(self) -> CommandSegment
        decreases self,
    {
        match self {
            CommandSegment::And(a) => (*a.right).current_segment_spec(),
            _ => self,
        }
    }

    pub fn current_segment(&self) -> (r: CommandSegment)
        ensures
            r == self.current_segment_spec(),
        decreases *self,
    {
        match self {
            CommandSegment::And(a) => (*a.right).current_segment(),
            _ => self.duplicate(),
        }
    }

    /// The beacon condition of the currently focused gate, if any.
    pub open spec fn target_spec(self) -> Option<PointOfInterest> {
        match self.current_segment_spec() {
            CommandSegment::At(a) => a.poi,
            _ => None,
        }
    }

    pub fn target(&self) -> (r: Option<PointOfInterest>)
        ensures
            r == self.target_spec(),
    {
        match self.current_segment() {
            CommandSegment::At(a) => a.poi,
            _ => None,
        }
    }

    pub fn input(&mut self, letter: char) -> (r: InputHandling)
        ensures
            (*final(self), r) == (*old(self)).step(letter),
    {
        let mut seg = CommandSegment::Empty;
        core::mem::swap(&mut seg, self);
        let (next, h) = seg_input(seg, letter);
        *self = next;
        h
    }
}

/// Inner keystroke pass on an owned tree; `Back` and `Unhandled`
/// leave the tree unchanged.
pub fn seg_inner_input(seg: CommandSegment, letter: char) -> (res: (
    CommandSegment,
    InputHandling,
))
    ensures
        res == seg.inner_step(letter),
    decreases seg, 0int,
{
    match seg {
        CommandSegment::Empty => (CommandSegment::Empty, InputHandling::Unhandled),
        CommandSegment::Altitude(mut a) => {
            let h = a.input(letter);
            (CommandSegment::Altitude(a), h)
        },
        CommandSegment::Turn(mut t) => {
            let h = t.input(letter);
            (CommandSegment::Turn(t), h)
        },
        CommandSegment::Circle(mut x) => {
            let h = x.input(letter);
            (CommandSegment::Circle(x), h)
        },
        CommandSegment::SetVisibility(mut v) => {
            let h = v.input(letter);
            (CommandSegment::SetVisibility(v), h)
        },
        CommandSegment::At(mut a) => {
            let h = a.input(letter);
            (CommandSegment::At(a), h)
        },
        CommandSegment::In(mut i) => {
            let h = i.input(letter);
            (CommandSegment::In(i), h)
        },
        CommandSegment::Ref(mut r) => {
            let h = r.input(letter);
            (CommandSegment::Ref(r), h)
        },
        CommandSegment::And(a) => {
            let And { left, right } = a;
            let r: CommandSegment = *right;
            if letter == ERASE {
                if let CommandSegment::Empty = &r {
                    return (
                        CommandSegment::And(And { left, right: Box::new(r) }),
                        InputHandling::Back,
                    );
                }
            }
            let (r2, h) = seg_input(r, letter);
            (CommandSegment::And(And { left, right: Box::new(r2) }), h)
        },
    }
}

/// Inner passes that do not handle the character leave the tree as it
/// was.
pub proof fn lemma_step_preserves(seg: CommandSegment, c: char)
    ensures
        seg.step(c).1 is Unhandled ==> seg.step(c).0 == seg,
        seg.step(c).1 is Back ==> seg.step(c).0 == seg,
        seg.inner_step(c).1 is Unhandled ==> seg.inner_step(c).0 == seg,
        seg.inner_step(c).1 is Back ==> seg.inner_step(c).0 == seg,
    decreases seg,
{
    match seg {
        CommandSegment::And(a) => {
            lemma_step_preserves(*a.right, c);
        },
        _ => {},
    }
}

/// One keystroke on an owned draft tree.
pub fn seg_input(seg: CommandSegment, letter: char) -> (res: (CommandSegment, InputHandling))
    ensures
        res == seg.step(letter),
    decreases seg, 1int,
{
    let ghost g = seg;
    if let CommandSegment::Empty = &seg {
        return if letter == ERASE {
            (CommandSegment::Empty, InputHandling::Back)
        } else if letter == 'a' {
            (CommandSegment::Altitude(Altitude::Undefined), InputHandling::Handled)
        } else if letter == 't' {
            (CommandSegment::Turn(Turn::Unset), InputHandling::Handled)
        } else if letter == 'c' {
            (CommandSegment::Circle(Circle::Unset), InputHandling::Handled)
        } else if letter == '%' {
            (CommandSegment::Ref(Ref(None)), InputHandling::Handled)
        } else if letter == 'm' {
            (CommandSegment::SetVisibility(SetVisibility::Mark), InputHandling::Handled)
        } else if letter == 'u' {
            (CommandSegment::SetVisibility(SetVisibility::Unmark), InputHandling::Handled)
        } else if letter == 'i' {
            (CommandSegment::SetVisibility(SetVisibility::Ignore), InputHandling::Handled)
        } else {
            (CommandSegment::Empty, InputHandling::Unhandled)
        };
    }
    let (s2, h) = seg_inner_input(seg, letter);
    proof {
        lemma_step_preserves(g, letter);
    }
    match h {
        InputHandling::Handled => (s2, InputHandling::Handled),
        InputHandling::Back => {
            match s2 {
                CommandSegment::At(a) => (*a.tail, InputHandling::Handled),
                CommandSegment::And(a) => (*a.left, InputHandling::Handled),
                CommandSegment::In(i) => (*i.tail, InputHandling::Handled),
                _ => (CommandSegment::Empty, InputHandling::Handled),
            }
        },
        InputHandling::Unhandled => {
            let finalizable = s2.to_complete().is_some();
            if finalizable && (letter == 'a' || letter == '@') {
                (
                    CommandSegment::At(At { tail: Box::new(s2), poi: None }),
                    InputHandling::Handled,
                )
            } else if finalizable && (letter == '&' || letter == ';') {
                (
                    CommandSegment::And(
                        And { left: Box::new(s2), right: Box::new(CommandSegment::Empty) },
                    ),
                    InputHandling::Handled,
                )
            } else if finalizable && (letter == '#' || letter == 'i') {
                (
                    CommandSegment::In(In { tail: Box::new(s2), time: None }),
                    InputHandling::Handled,
                )
            } else {
                (s2, InputHandling::Unhandled)
            }
        },
    }
}

/// Draft addressee of a command: a plane letter or a numbered slot.
#[derive(Debug, Clone, Copy, PartialEq, Eq, Structural)]
pub enum CommandTarget {
    Unset,
    Plane(char),
    Slot(Option<u16>),
}

/// Finalized addressee.
#[derive(Debug, Clone, Copy, PartialEq, Eq, Structural)]
pub enum CompleteCommandTarget {
    Plane(char),
    Slot(u16),
}

/// Whether a character is an ASCII letter.
pub open spec fn is_ascii_letter(c: char) -> bool {
    ('a' <= c && c <= 'z') || ('A' <= c && c <= 'Z')
}

impl CommandTarget {
    pub open spec fn step(self, c: char) -> (CommandTarget, InputHandling) {
        if c == ERASE {
            match self {
                CommandTarget::Unset => (self, InputHandling::Back),
                CommandTarget::Plane(_) => (CommandTarget::Unset, InputHandling::Handled),
                CommandTarget::Slot(None) => (CommandTarget::Unset, InputHandling::Handled),
                CommandTarget::Slot(Some(_)) => (
                    CommandTarget::Slot(None),
                    InputHandling::Handled,
                ),
            }
        } else {
            match self {
                CommandTarget::Unset => {
                    if is_ascii_letter(c) {
                        (CommandTarget::Plane(c), InputHandling::Handled)
                    } else if c == '%' {
                        (CommandTarget::Slot(None), InputHandling::Handled)
                    } else {
                        (self, InputHandling::Unhandled)
                    }
                },
                CommandTarget::Slot(None) => {
                    if is_dec_digit(c) {
                        (CommandTarget::Slot(Some(digit_val(c))), InputHandling::Handled)
                    } else {
                        (self, InputHandling::Unhandled)
                    }
                },
                _ => (self, InputHandling::Unhandled),
            }
        }
    }

    pub fn input(&mut self, letter: char) -> (r: InputHandling)
        ensures
            (*final(self), r) == (*old(self)).step(letter),
    {
        let s = *self;
        if letter == ERASE {
            match s {
                CommandTarget::Unset => InputHandling::Back,
                CommandTarget::Plane(_) => {
                    *self = CommandTarget::Unset;
                    InputHandling::Handled
                },
                CommandTarget::Slot(None) => {
                    *self = CommandTarget::Unset;
                    InputHandling::Handled
                },
                CommandTarget::Slot(Some(_)) => {
                    *self = CommandTarget::Slot(None);
                    InputHandling::Handled
                },
            }
        } else {
            match s {
                CommandTarget::Unset => {
                    if ('a' <= letter && letter <= 'z') || ('A' <= letter && letter <= 'Z') {
                        *self = CommandTarget::Plane(letter);
                        InputHandling::Handled
                    } else if letter == '%' {
                        *self = CommandTarget::Slot(None);
                        InputHandling::Handled
                    } else {
                        InputHandling::Unhandled
                    }
                },
                CommandTarget::Slot(None) => {
                    if '0' <= letter && letter <= '9' {
                        *self = CommandTarget::Slot(Some(crate::digit_as_num(letter)));
                        InputHandling::Handled
                    } else {
                        InputHandling::Unhandled
                    }
                },
                _ => InputHandling::Unhandled,
            }
        }
    }

    pub open spec fn to_complete_spec(self) -> Option<CompleteCommandTarget> {
        match self {
            CommandTarget::Plane(c) => Some(CompleteCommandTarget::Plane(c)),
            CommandTarget::Slot(Some(n)) => Some(CompleteCommandTarget::Slot(n)),
            _ => None,
        }
    }

    pub fn to_complete(&self) -> (r: Option<CompleteCommandTarget>)
        ensures
            r == self.to_complete_spec(),
    {
        match *self {
            CommandTarget::Plane(c) => Some(CompleteCommandTarget::Plane(c)),
            CommandTarget::Slot(Some(n)) => Some(CompleteCommandTarget::Slot(n)),
            _ => None,
        }
    }
}

impl CompleteCommandTarget {
    /// The same addressee as a (complete) draft value.
    pub fn to_draft(self) -> (r: CommandTarget)
        ensures
            r == self.to_draft_spec(),
            r.to_complete_spec() == Some(self),
    {
        match self {
            CompleteCommandTarget::Plane(p) => CommandTarget::Plane(p),
            CompleteCommandTarget::Slot(s) => CommandTarget::Slot(Some(s)),
        }
    }
}

/// The whole draft command: addressee plus grammar body.
#[derive(Debug, PartialEq)]
pub struct Command {
    pub target: CommandTarget,
    pub head: CommandSegment,
}

/// The whole finalized command.
#[derive(Debug, PartialEq)]
pub struct CompleteCommand {
    pub target: CompleteCommandTarget,
    pub head: CompleteCommandSegment,
}

impl Command {
    pub open spec fn empty_spec() -> Command {
        Command { target: CommandTarget::Unset, head: CommandSegment::Empty }
    }

    /// A fresh, empty command.
    pub fn new() -> (r: Command)
        ensures
            r == Self::empty_spec(),
    {
        Command { target: CommandTarget::Unset, head: CommandSegment::Empty }
    }

    /// Discards all draft state.
    pub fn reset(&mut self)
        ensures
            *final(self) == Self::empty_spec(),
    {
        *self = Command { target: CommandTarget::Unset, head: CommandSegment::Empty }
    }

    pub open spec fn is_empty_spec(self) -> bool {
        self.target is Unset
    }

    /// Whether nothing has been typed yet.
    pub fn is_empty(&self) -> (r: bool)
        ensures
            r == self.is_empty_spec(),
    {
        match self.target {
            CommandTarget::Unset => true,
            _ => false,
        }
    }

    /// One keystroke on the whole command: until the addressee is
    /// complete it consumes every character; afterwards characters
    /// flow into the body, and erasing past the body's first element
    /// erodes the addressee.
    pub open spec fn step(self, c: char) -> Command {
        if self.target.to_complete_spec() is None {
            Command { target: self.target.step(c).0, head: self.head }
        } else {
            let (h2, r) = self.head.step(c);
            if r is Back {
                Command { target: self.target.step(ERASE).0, head: h2 }
            } else {
                Command { target: self.target, head: h2 }
            }
        }
    }

    pub fn input(&mut self, letter: char)
        ensures
            *final(self) == (*old(self)).step(letter),
    {
        match self.target.to_complete() {
            None => {
                self.target.input(letter);
            },
            Some(_) => {
                match self.head.input(letter) {
                    InputHandling::Handled => {},
                    InputHandling::Unhandled => {},
                    InputHandling::Back => {
                        self.target.input(ERASE);
                    },
                }
            },
        }
    }

    pub open spec fn to_complete_spec(self) -> Option<CompleteCommand> {
        match (self.target.to_complete_spec(), self.head.to_complete_spec()) {
            (Some(target), Some(head)) => Some(CompleteCommand { target, head }),
            _ => None,
        }
    }

    /// Total try-finalize: succeeds exactly when the addressee and
    /// every reachable sub-node are complete.
    pub fn to_complete(&mut self) -> (r: Option<CompleteCommand>)
        ensures
            *final(self) == *old(self),
            r == (*old(self)).to_complete_spec(),
    {
        let target = match self.target.to_complete() {
            Some(t) => t,
            None => {
                return None;
            },
        };
        match self.head.to_complete() {
            Some(head) => Some(CompleteCommand { target, head }),
            None => None,
        }
    }

    pub fn current_segment(&self) -> (r: CommandSegment)
        ensures
            r == self.head.current_segment_spec(),
    {
        self.head.current_segment()
    }

    /// An exact structural copy.
    pub fn duplicate(&self) -> (r: Command)
        ensures
            r == *self,
    {
        Command { target: self.target, head: self.head.duplicate() }
    }
}

impl Altitude {
    pub open spec fn text_spec(self) -> Seq<char> {
        match self {
            Altitude::Undefined => "altitude:"@,
            Altitude::To(v) => "altitude: "@ + dec_digits(v as int) + "000ft"@,
            Altitude::Plus(None) => "altitude: climb"@,
            Altitude::Minus(None) => "altitude: descend"@,
            Altitude::Plus(Some(v)) => "altitude: climb "@ + dec_digits(v as int) + "000ft"@,
            Altitude::Minus(Some(v)) => "altitude: descend "@ + dec_digits(v as int) + "000ft"@,
        }
    }

    /// Live feedback text for the partial state.
    pub fn as_text(&self) -> (r: String)
        ensures
            r@ == self.text_spec(),
    {
        let mut s: String;
        match *self {
            Altitude::Undefined => {
                s = String::from_str("altitude:");
            },
            Altitude::To(v) => {
                s = String::from_str("altitude: ");
                let d = u16_to_string(v);
                s.append(d.as_str());
                s.append("000ft");
            },
            Altitude::Plus(None) => {
                s = String::from_str("altitude: climb");
            },
            Altitude::Minus(None) => {
                s = String::from_str("altitude: descend");
            },
            Altitude::Plus(Some(v)) => {
                s = String::from_str("altitude: climb ");
                let d = u16_to_string(v);
                s.append(d.as_str());
                s.append("000ft");
            },
            Altitude::Minus(Some(v)) => {
                s = String::from_str("altitude: descend ");
                let d = u16_to_string(v);
                s.append(d.as_str());
                s.append("000ft");
            },
        }
        proof {
            assert(s@ =~= self.text_spec());
        }
        s
    }
}

impl CompleteAltitude {
    pub open spec fn render_spec(self, colorize: bool) -> Seq<char> {
        match self {
            CompleteAltitude::To(v) => "fl="@ + dec_digits(v as int),
            CompleteAltitude::Plus(v) => "fl+"@ + dec_digits(v as int),
            CompleteAltitude::Minus(v) => "fl-"@ + dec_digits(v as int),
        }
    }

    /// Short status text.
    pub fn render(&self, colorize: bool) -> (r: String)
        ensures
            r@ == self.render_spec(colorize),
    {
        let mut s: String;
        match *self {
            CompleteAltitude::To(v) => {
                s = String::from_str("fl=");
                let d = u16_to_string(v);
                s.append(d.as_str());
            },
            CompleteAltitude::Plus(v) => {
                s = String::from_str("fl+");
                let d = u16_to_string(v);
                s.append(d.as_str());
            },
            CompleteAltitude::Minus(v) => {
                s = String::from_str("fl-");
                let d = u16_to_string(v);
                s.append(d.as_str());
            },
        }
        proof {
            assert(s@ =~= self.render_spec(colorize));
        }
        s
    }
}

impl Turn {
    pub open spec fn text_spec(self) -> Seq<char> {
        match self {
            Turn::Unset => "turn"@,
            Turn::ToHeading(h) => "turn to "@ + dec_digits(45 * h.idx()),
        }
    }

    /// Live feedback text for the partial state.
    pub fn as_text(&self) -> (r: String)
        ensures
            r@ == self.text_spec(),
    {
        let mut s: String;
        match *self {
            Turn::Unset => {
                s = String::from_str("turn");
            },
            Turn::ToHeading(h) => {
                s = String::from_str("turn to ");
                let d = u16_to_string(h.to_deg());
                s.append(d.as_str());
            },
        }
        proof {
            assert(s@ =~= self.text_spec());
        }
        s
    }
}

impl CompleteTurn {
    pub open spec fn render_spec(self, colorize: bool) -> Seq<char> {
        match self {
            CompleteTurn::ToHeading(h) => dec_digits(45 * h.idx()),
        }
    }

    /// Short status text: the heading in degrees.
    pub fn render(&self, colorize: bool) -> (r: String)
        ensures
            r@ == self.render_spec(colorize),
    {
        let CompleteTurn::ToHeading(h) = *self;
        u16_to_string(h.to_deg())
    }
}

impl Circle {
    pub open spec fn text_spec(self) -> Seq<char> {
        match self {
            Circle::Unset => "circle"@,
            Circle::Clockwise => "circle clockwise"@,
            Circle::CounterClockwise => "circle counter-clockwise"@,
        }
    }

    /// Live feedback text for the partial state.
    pub fn as_text(&self) -> (r: String)
        ensures
            r@ == self.text_spec(),
    {
        match *self {
            Circle::Unset => String::from_str("circle"),
            Circle::Clockwise => String::from_str("circle clockwise"),
            Circle::CounterClockwise => String::from_str("circle counter-clockwise"),
        }
    }
}

impl CompleteCircle {
    pub open spec fn render_spec(self, colorize: bool) -> Seq<char> {
        match self {
            CompleteCircle::Clockwise => "circle CW"@,
            CompleteCircle::CounterClockwise => "circle CCW"@,
        }
    }

    /// Short status text.
    pub fn render(&self, colorize: bool) -> (r: String)
        ensures
            r@ == self.render_spec(colorize),
    {
        match *self {
            CompleteCircle::Clockwise => String::from_str("circle CW"),
            CompleteCircle::CounterClockwise => String::from_str("circle CCW"),
        }
    }
}

impl SetVisibility {
    pub open spec fn text_spec(self) -> Seq<char> {
        match self {
            SetVisibility::Mark => "mark"@,
            SetVisibility::Unmark => "unmark"@,
            SetVisibility::Ignore => "ignore"@,
        }
    }

    /// Live feedback text; this fragment is always complete.
    pub fn as_text(&self) -> (r: String)
        ensures
            r@ == self.text_spec(),
    {
        match *self {
            SetVisibility::Mark => String::from_str("mark"),
            SetVisibility::Unmark => String::from_str("unmark"),
            SetVisibility::Ignore => String::from_str("ignore"),
        }
    }

    pub open spec fn render_spec(self, colorize: bool) -> Seq<char> {
        self.text_spec()
    }

    /// Short status text.
    pub fn render(&self, colorize: bool) -> (r: String)
        ensures
            r@ == self.render_spec(colorize),
    {
        self.as_text()
    }
}

impl PointOfInterest {
    pub open spec fn text_spec(self) -> Seq<char> {
        match self {
            PointOfInterest::Beacon(None) => "\x1b[33m*\x1b[39m"@,
            PointOfInterest::Beacon(Some(n)) => "\x1b[33m*"@ + dec_digits(n as int) + "\x1b[39m"@,
            PointOfInterest::Default(n) => "\x1b[33m*"@ + dec_digits(n as int) + "\x1b[39m"@,
        }
    }

    /// Live feedback text for the partial state.
    pub fn as_text(&self) -> (r: String)
        ensures
            r@ == self.text_spec(),
    {
        let mut s: String;
        match *self {
            PointOfInterest::Beacon(None) => {
                s = String::from_str("\x1b[33m*\x1b[39m");
            },
            PointOfInterest::Beacon(Some(n)) => {
                s = String::from_str("\x1b[33m*");
                let d = u16_to_string(n);
                s.append(d.as_str());
                s.append("\x1b[39m");
            },
            PointOfInterest::Default(n) => {
                s = String::from_str("\x1b[33m*");
                let d = u16_to_string(n);
                s.append(d.as_str());
                s.append("\x1b[39m");
            },
        }
        proof {
            assert(s@ =~= self.text_spec());
        }
        s
    }
}

impl CompletePointOfInterest {
    pub open spec fn render_spec(self, colorize: bool) -> Seq<char> {
        match self {
            CompletePointOfInterest::Beacon(n) => {
                if colorize {
                    "\x1b[33m*"@ + dec_digits(n as int) + "\x1b[39m"@
                } else {
                    "*"@ + dec_digits(n as int)
                }
            },
        }
    }

    /// Short status text: the beacon number.
    pub fn render(&self, colorize: bool) -> (r: String)
        ensures
            r@ == self.render_spec(colorize),
    {
        let CompletePointOfInterest::Beacon(n) = *self;
        let mut s: String;
        if colorize {
            s = String::from_str("\x1b[33m*");
        } else {
            s = String::from_str("*");
        }
        let d = u16_to_string(n);
        s.append(d.as_str());
        if colorize {
            s.append("\x1b[39m");
        }
        proof {
            assert(s@ =~= self.render_spec(colorize));
        }
        s
    }
}

impl Ref {
    pub open spec fn text_spec(self) -> Seq<char> {
        match self.0 {
            None => "\x1b[34m%\x1b[39m"@,
            Some(n) => "\x1b[34m%"@ + dec_digits(n as int) + "\x1b[39m"@,
        }
    }

    /// Live feedback text for the partial state.
    pub fn as_text(&self) -> (r: String)
        ensures
            r@ == self.text_spec(),
    {
        let mut s: String;
        match self.0 {
            None => {
                s = String::from_str("\x1b[34m%\x1b[39m");
            },
            Some(n) => {
                s = String::from_str("\x1b[34m%");
                let d = u16_to_string(n);
                s.append(d.as_str());
                s.append("\x1b[39m");
            },
        }
        proof {
            assert(s@ =~= self.text_spec());
        }
        s
    }
}

impl CompleteRef {
    pub open spec fn render_spec(self, colorize: bool) -> Seq<char> {
        if colorize {
            "\x1b[34m%"@ + dec_digits(self.0 as int) + "\x1b[39m"@
        } else {
            "%"@ + dec_digits(self.0 as int)
        }
    }

    /// Short status text: the slot number.
    pub fn render(&self, colorize: bool) -> (r: String)
        ensures
            r@ == self.render_spec(colorize),
    {
        let mut s: String;
        if colorize {
            s = String::from_str("\x1b[34m%");
        } else {
            s = String::from_str("%");
        }
        let d = u16_to_string(self.0);
        s.append(d.as_str());
        if colorize {
            s.append("\x1b[39m");
        }
        proof {
            assert(s@ =~= self.render_spec(colorize));
        }
        s
    }
}

impl At {
    pub open spec fn text_spec(self) -> Seq<char>
        decreases self, 0int,
    {
        (*self.tail).text_spec() + " at "@ + (match self.poi {
            None => Seq::<char>::empty(),
            Some(p) => p.text_spec(),
        })
    }

    /// Live feedback text for the partial state.
    pub fn as_text(&self) -> (r: String)
        ensures
            r@ == self.text_spec(),
        decreases *self, 0int,
    {
        let mut s = (*self.tail).as_text();
        s.append(" at ");
        match &self.poi {
            None => {},
            Some(p) => {
                let t = p.as_text();
                s.append(t.as_str());
            },
        }
        proof {
            assert(s@ =~= self.text_spec());
        }
        s
    }
}

impl CompleteAt {
    pub open spec fn render_spec(self, colorize: bool) -> Seq<char>
        decreases self, 0int,
    {
        (*self.tail).render_spec(colorize) + "@"@ + self.poi.render_spec(colorize)
    }

    /// Short status text.
    pub fn render(&self, colorize: bool) -> (r: String)
        ensures
            r@ == self.render_spec(colorize),
        decreases *self, 0int,
    {
        let mut s = (*self.tail).render(colorize);
        s.append("@");
        let t = self.poi.render(colorize);
        s.append(t.as_str());
        proof {
            assert(s@ =~= self.render_spec(colorize));
        }
        s
    }
}

impl In {
    pub open spec fn text_spec(self) -> Seq<char>
        decreases self, 0int,
    {
        (*self.tail).text_spec() + " in \x1b[36m#"@ + (match self.time {
            None => Seq::<char>::empty(),
            Some(t) => dec_digits(t as int),
        }) + "\x1b[39m ticks"@
    }

    /// Live feedback text for the partial state.
    pub fn as_text(&self) -> (r: String)
        ensures
            r@ == self.text_spec(),
        decreases *self, 0int,
    {
        let mut s = (*self.tail).as_text();
        s.append(" in \x1b[36m#");
        match self.time {
            None => {},
            Some(t) => {
                let d = u16_to_string(t);
                s.append(d.as_str());
            },
        }
        s.append("\x1b[39m ticks");
        proof {
            assert(s@ =~= self.text_spec());
        }
        s
    }
}

impl CompleteIn {
    pub open spec fn render_spec(self, colorize: bool) -> Seq<char>
        decreases self, 0int,
    {
        (*self.tail).render_spec(colorize) + (if colorize {
            "\x1b[36m#"@ + dec_digits(self.time as int) + "\x1b[39m"@
        } else {
            "#"@ + dec_digits(self.time as int)
        })
    }

    /// Short status text.
    pub fn render(&self, colorize: bool) -> (r: String)
        ensures
            r@ == self.render_spec(colorize),
        decreases *self, 0int,
    {
        let mut s = (*self.tail).render(colorize);
        if colorize {
            s.append("\x1b[36m#");
        } else {
            s.append("#");
        }
        let d = u16_to_string(self.time);
        s.append(d.as_str());
        if colorize {
            s.append("\x1b[39m");
        }
        proof {
            assert(s@ =~= self.render_spec(colorize));
        }
        s
    }
}

impl And {
    pub open spec fn text_spec(self) -> Seq<char>
        decreases self, 0int,
    {
        (*self.left).text_spec() + " & "@ + (*self.right).text_spec()
    }

    /// Live feedback text for the partial state.
    pub fn as_text(&self) -> (r: String)
        ensures
            r@ == self.text_spec(),
        decreases *self, 0int,
    {
        let mut s = (*self.left).as_text();
        s.append(" & ");
        let t = (*self.right).as_text();
        s.append(t.as_str());
        proof {
            assert(s@ =~= self.text_spec());
        }
        s
    }
}

impl CompleteAnd {
    pub open spec fn render_spec(self, colorize: bool) -> Seq<char>
        decreases self, 0int,
    {
        (*self.left).render_spec(colorize) + ";"@ + (*self.right).render_spec(colorize)
    }

    /// Short status text.
    pub fn render(&self, colorize: bool) -> (r: String)
        ensures
            r@ == self.render_spec(colorize),
        decreases *self, 0int,
    {
        let mut s = (*self.left).render(colorize);
        s.append(";");
        let t = (*self.right).render(colorize);
        s.append(t.as_str());
        proof {
            assert(s@ =~= self.render_spec(colorize));
        }
        s
    }
}

impl CommandSegment {
    pub open spec fn text_spec(self) -> Seq<char>
        decreases self, 1int,
    {
        match self {
            CommandSegment::Empty => Seq::<char>::empty(),
            CommandSegment::Altitude(a) => a.text_spec(),
            CommandSegment::Turn(t) => t.text_spec(),
            CommandSegment::Circle(c) => c.text_spec(),
            CommandSegment::SetVisibility(v) => v.text_spec(),
            CommandSegment::At(a) => a.text_spec(),
            CommandSegment::And(a) => a.text_spec(),
            CommandSegment::In(i) => i.text_spec(),
            CommandSegment::Ref(r) => r.text_spec(),
        }
    }

    /// Live feedback text for the whole partial tree; defined in
    /// every state, complete or not.
    pub fn as_text(&self) -> (r: String)
        ensures
            r@ == self.text_spec(),
        decreases *self, 1int,
    {
        match self {
            CommandSegment::Empty => String::new(),
            CommandSegment::Altitude(a) => a.as_text(),
            CommandSegment::Turn(t) => t.as_text(),
            CommandSegment::Circle(c) => c.as_text(),
            CommandSegment::SetVisibility(v) => v.as_text(),
            CommandSegment::At(a) => a.as_text(),
            CommandSegment::And(a) => a.as_text(),
            CommandSegment::In(i) => i.as_text(),
            CommandSegment::Ref(r) => r.as_text(),
        }
    }
}

impl CompleteCommandSegment {
    pub open spec fn render_spec(self, colorize: bool) -> Seq<char>
        decreases self, 1int,
    {
        match self {
            CompleteCommandSegment::Altitude(a) => a.render_spec(colorize),
            CompleteCommandSegment::Turn(t) => t.render_spec(colorize),
            CompleteCommandSegment::Circle(c) => c.render_spec(colorize),
            CompleteCommandSegment::SetVisibility(v) => v.render_spec(colorize),
            CompleteCommandSegment::At(a) => a.render_spec(colorize),
            CompleteCommandSegment::And(a) => a.render_spec(colorize),
            CompleteCommandSegment::In(i) => i.render_spec(colorize),
            CompleteCommandSegment::Ref(r) => r.render_spec(colorize),
            CompleteCommandSegment::Empty => {
                if colorize {
                    "\x1b[41m[]\x1b[49m"@
                } else {
                    "[]"@
                }
            },
        }
    }

    /// Short status text of a finalized tree.
    pub fn render(&self, colorize: bool) -> (r: String)
        ensures
            r@ == self.render_spec(colorize),
        decreases *self, 1int,
    {
        match self {
            CompleteCommandSegment::Altitude(a) => a.render(colorize),
            CompleteCommandSegment::Turn(t) => t.render(colorize),
            CompleteCommandSegment::Circle(c) => c.render(colorize),
            CompleteCommandSegment::SetVisibility(v) => v.render(colorize),
            CompleteCommandSegment::At(a) => a.render(colorize),
            CompleteCommandSegment::And(a) => a.render(colorize),
            CompleteCommandSegment::In(i) => i.render(colorize),
            CompleteCommandSegment::Ref(r) => r.render(colorize),
            CompleteCommandSegment::Empty => {
                if colorize {
                    String::from_str("\x1b[41m[]\x1b[49m")
                } else {
                    String::from_str("[]")
                }
            },
        }
    }
}

impl CommandTarget {
    pub open spec fn text_spec(self) -> Seq<char> {
        match self {
            CommandTarget::Unset => Seq::<char>::empty(),
            CommandTarget::Plane(c) => "\x1b[32m"@ + seq![c] + "\x1b[39m: "@,
            CommandTarget::Slot(None) => "\x1b[34m%\x1b[39m"@,
            CommandTarget::Slot(Some(n)) => "\x1b[34m%"@ + dec_digits(n as int) + "\x1b[39m: "@,
        }
    }

    /// Live feedback text for the addressee.
    pub fn as_text(&self) -> (r: String)
        ensures
            r@ == self.text_spec(),
    {
        let mut s: String;
        match *self {
            CommandTarget::Unset => {
                s = String::new();
            },
            CommandTarget::Plane(c) => {
                s = String::from_str("\x1b[32m");
                crate::text::push_char(&mut s, c);
                s.append("\x1b[39m: ");
            },
            CommandTarget::Slot(None) => {
                s = String::from_str("\x1b[34m%\x1b[39m");
            },
            CommandTarget::Slot(Some(n)) => {
                s = String::from_str("\x1b[34m%");
                let d = u16_to_string(n);
                s.append(d.as_str());
                s.append("\x1b[39m: ");
            },
        }
        proof {
            assert(s@ =~= self.text_spec());
        }
        s
    }
}

impl CompleteCommandTarget {
    /// The addressee shown as the draft form would show it.
    pub fn as_text(self) -> (r: String)
        ensures
            r@ == self.to_draft_spec().text_spec(),
    {
        let draft = self.to_draft();
        draft.as_text()
    }

    pub open spec fn to_draft_spec(self) -> CommandTarget {
        match self {
            CompleteCommandTarget::Plane(p) => CommandTarget::Plane(p),
            CompleteCommandTarget::Slot(s) => CommandTarget::Slot(Some(s)),
        }
    }
}

impl Command {
    pub open spec fn text_spec(self) -> Seq<char> {
        self.target.text_spec() + self.head.text_spec()
    }

    /// Live feedback text of the whole draft: addressee then body.
    pub fn as_text(&self) -> (r: String)
        ensures
            r@ == self.text_spec(),
    {
        let mut s = self.target.as_text();
        let t = self.head.as_text();
        s.append(t.as_str());
        s
    }
}

impl CompleteCommand {
    pub open spec fn render_spec(self, colorize: bool) -> Seq<char> {
        self.head.render_spec(colorize)
    }

    /// Short status text of a finalized command.
    pub fn render(&self, colorize: bool) -> (r: String)
        ensures
            r@ == self.render_spec(colorize),
    {
        self.head.render(colorize)
    }
}

/// The command built by replaying a keystroke sequence from empty.
pub open spec fn replay(s: Seq<char>) -> Command
    decreases s.len(),
{
    if s.len() == 0 {
        Command::empty_spec()
    } else {
        replay(s.drop_last()).step(s.last())
    }
}

/// Finalization is deterministic: the draft a keystroke sequence
/// builds from empty is a function of the sequence alone, so
/// replaying the same keystrokes always reconstructs a command with
/// an identical finalization result.
pub proof fn lemma_replay_deterministic(s: Seq<char>, a: Command, b: Command)
    requires
        a == replay(s),
        b == replay(s),
    ensures
        a == b,
        a.to_complete_spec() == b.to_complete_spec(),
{
}

/// Wrap precondition: while a tree cannot finalize, a keystroke its
/// node does not consume is dropped entirely; in particular it never
/// wraps the tree in a gate, sequence or delay.
pub proof fn lemma_wrap_requires_finalizable(seg: CommandSegment, c: char)
    requires
        !(seg is Empty),
        seg.to_complete_spec() is None,
        seg.inner_step(c).1 is Unhandled,
    ensures
        seg.step(c) == (seg, InputHandling::Unhandled),
{
    lemma_step_preserves(seg, c);
}

/// How many rungs of erasure stand between a beacon condition and
/// nothing.
pub open spec fn poi_depth(p: Option<PointOfInterest>) -> nat {
    match p {
        None => 0,
        Some(PointOfInterest::Default(_)) => 1,
        Some(PointOfInterest::Beacon(None)) => 1,
        Some(PointOfInterest::Beacon(Some(_))) => 2,
    }
}

/// How many erase keystrokes a tree takes to clear completely: its
/// ladder height.
pub open spec fn erase_depth(seg: CommandSegment) -> nat
    decreases seg,
{
    match seg {
        CommandSegment::Empty => 0,
        CommandSegment::Altitude(a) => match a {
            Altitude::Undefined => 1,
            Altitude::To(_) => 2,
            Altitude::Plus(v) => if v is Some {
                3
            } else {
                2
            },
            Altitude::Minus(v) => if v is Some {
                3
            } else {
                2
            },
        },
        CommandSegment::Turn(t) => if t is Unset {
            1
        } else {
            2
        },
        CommandSegment::Circle(c) => if c is Unset {
            1
        } else {
            2
        },
        CommandSegment::SetVisibility(_) => 1,
        CommandSegment::Ref(r) => if r.0 is Some {
            2
        } else {
            1
        },
        CommandSegment::At(a) => erase_depth(*a.tail) + 1 + poi_depth(a.poi),
        CommandSegment::In(i) => erase_depth(*i.tail) + 1 + (if i.time is Some {
            1nat
        } else {
            0nat
        }),
        CommandSegment::And(a) => erase_depth(*a.left) + 1 + erase_depth(*a.right),
    }
}

/// Only the empty tree has ladder height zero.
pub proof fn lemma_depth_zero(seg: CommandSegment)
    ensures
        erase_depth(seg) == 0 <==> seg is Empty,
    decreases seg,
{
}

/// Every keystroke moves along the ladder one rung at a time: a
/// handled character climbs exactly one rung, erase steps exactly one
/// rung down, erase at the bottom reports `Back`, and an unhandled
/// character changes nothing.
pub proof fn lemma_ladder_step(seg: CommandSegment, c: char)
    ensures
        seg.step(c).1 is Handled && c != ERASE ==> erase_depth(seg.step(c).0) == erase_depth(seg)
            + 1,
        c == ERASE && erase_depth(seg) > 0 ==> seg.step(c).1 is Handled && erase_depth(seg)
            == erase_depth(seg.step(c).0) + 1,
        c == ERASE && erase_depth(seg) == 0 ==> seg.step(c) == (seg, InputHandling::Back),
        seg.step(c).1 is Unhandled ==> seg.step(c).0 == seg,
        seg.step(c).1 is Back ==> seg is Empty && c == ERASE,
    decreases seg,
{
    reveal_with_fuel(erase_depth, 3);
    lemma_step_preserves(seg, c);
    match seg {
        CommandSegment::And(a) => {
            lemma_ladder_step(*a.right, c);
            lemma_depth_zero(*a.right);
        },
        _ => {},
    }
}

/// A keystroke sequence applied to a draft tree, one character at a
/// time.
pub open spec fn apply_seq(seg: CommandSegment, s: Seq<char>) -> CommandSegment
    decreases s.len(),
{
    if s.len() == 0 {
        seg
    } else {
        apply_seq(seg.step(s[0]).0, s.drop_first())
    }
}

/// Whether a tree handles every character of a sequence in turn,
/// none of them an erase.
pub open spec fn all_handled_from(seg: CommandSegment, s: Seq<char>) -> bool
    decreases s.len(),
{
    if s.len() == 0 {
        true
    } else {
        &&& seg.step(s[0]).1 is Handled
        &&& s[0] != ERASE
        &&& all_handled_from(seg.step(s[0]).0, s.drop_first())
    }
}

/// A tree built by handled keystrokes has one ladder rung per
/// keystroke: the count of inputs that built a state is the count of
/// erases that clears it again.
pub proof fn lemma_build_height(seg: CommandSegment, s: Seq<char>)
    requires
        all_handled_from(seg, s),
    ensures
        erase_depth(apply_seq(seg, s)) == erase_depth(seg) + s.len(),
    decreases s.len(),
{
    if s.len() > 0 {
        lemma_ladder_step(seg, s[0]);
        lemma_build_height(seg.step(s[0]).0, s.drop_first());
    }
}

/// A tree erased as many times as its ladder height.
pub open spec fn erase_n(seg: CommandSegment, n: nat) -> CommandSegment
    decreases n,
{
    if n == 0 {
        seg
    } else {
        erase_n(seg.step(ERASE).0, (n - 1) as nat)
    }
}

/// Ladder symmetry: erasing a tree once per rung of its ladder
/// returns it to the empty tree, each erase handled, and one more
/// erase then reports `Back`.
pub proof fn lemma_ladder_symmetry(seg: CommandSegment)
    ensures
        erase_n(seg, erase_depth(seg)) == CommandSegment::Empty,
        CommandSegment::Empty.step(ERASE) == (CommandSegment::Empty, InputHandling::Back),
    decreases erase_depth(seg),
{
    lemma_depth_zero(seg);
    if erase_depth(seg) > 0 {
        lemma_ladder_step(seg, ERASE);
        lemma_ladder_symmetry(seg.step(ERASE).0);
        assert(erase_n(seg, erase_depth(seg)) == erase_n(
            seg.step(ERASE).0,
            (erase_depth(seg) - 1) as nat,
        ));
    }
}

} // verus!
