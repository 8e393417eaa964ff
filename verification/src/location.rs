use vstd::prelude::*;
use vstd::string::*;

use crate::direction::OrdinalDirection;
use crate::map_objects::{Airport, Exit};
use crate::text::{dec_digits, u16_to_string};

verus! {

/// Clamp a mathematical coordinate into the representable grid range.
pub open spec fn clamp_u16(v: int) -> u16 {
    if v < 0 {
        0
    } else if v > 0xffff {
        0xffff
    } else {
        v as u16
    }
}

/// One coordinate stepped by a signed offset, clamped at the
/// representable range instead of wrapping.
pub fn add_clamped(x: u16, d: i16) -> (r: u16)
    ensures
        r == clamp_u16(x + d),
{
    let v: i32 = x as i32 + d as i32;
    if v < 0 {
        0
    } else if v > 0xffff {
        0xffff
    } else {
        v as u16
    }
}

/// A ground square; also used to represent a path marker.
#[derive(Debug, Clone, Copy, PartialEq, Eq, Structural)]
pub struct GroundLocation(pub u16, pub u16);

/// An airborne position together with its flight level.
#[derive(Debug, Clone, Copy, PartialEq, Eq, Structural)]
pub struct AirLocation(pub u16, pub u16, pub u16);

impl GroundLocation {
    /// One grid step by an offset pair, clamped at the representable
    /// range.
    pub open spec fn offset_spec(self, d: (i16, i16)) -> GroundLocation {
        GroundLocation(clamp_u16(self.0 + d.0), clamp_u16(self.1 + d.1))
    }

    pub fn offset_by(self, d: (i16, i16)) -> (r: GroundLocation)
        ensures
            r == self.offset_spec(d),
    {
        GroundLocation(add_clamped(self.0, d.0), add_clamped(self.1, d.1))
    }
}

impl AirLocation {
    /// The ground square below this position.
    pub open spec fn ground_spec(self) -> GroundLocation {
        GroundLocation(self.0, self.1)
    }

    pub fn ground(self) -> (r: GroundLocation)
        ensures
            r == self.ground_spec(),
    {
        GroundLocation(self.0, self.1)
    }
}

/// Where an entity currently is: parked at an airport, or airborne.
#[derive(Debug, Clone, Copy, PartialEq, Eq, Structural)]
pub enum Location {
    Airport(Airport),
    Flight(AirLocation),
}

impl Location {
    /// The ground square of the location.
    pub open spec fn ground_spec(self) -> GroundLocation {
        match self {
            Location::Airport(a) => a.location,
            Location::Flight(al) => al.ground_spec(),
        }
    }

    pub fn ground(self) -> (r: GroundLocation)
        ensures
            r == self.ground_spec(),
    {
        match self {
            Location::Airport(a) => a.location,
            Location::Flight(al) => al.ground(),
        }
    }
}

/// A start or end point of a journey: an airport or a map exit.
#[derive(Debug, Clone, Copy, PartialEq, Eq, Structural)]
pub enum Destination {
    Airport(Airport),
    Exit(Exit),
}

impl Destination {
    pub open spec fn entry_spec(self) -> Location {
        match self {
            Destination::Airport(a) => Location::Airport(a),
            Destination::Exit(e) => Location::Flight(e.entry_location),
        }
    }

    /// Where a journey from this point begins.
    pub fn entry(&self) -> (r: Location)
        ensures
            r == self.entry_spec(),
    {
        match self {
            Destination::Airport(a) => Location::Airport(*a),
            Destination::Exit(e) => Location::Flight(e.entry_location),
        }
    }

    pub open spec fn exit_spec(self) -> Location {
        match self {
            Destination::Airport(a) => Location::Airport(a),
            Destination::Exit(e) => Location::Flight(e.exit_location),
        }
    }

    /// Where a journey toward this point ends.
    pub fn exit(&self) -> (r: Location)
        ensures
            r == self.exit_spec(),
    {
        match self {
            Destination::Airport(a) => Location::Airport(*a),
            Destination::Exit(e) => Location::Flight(e.exit_location),
        }
    }

    pub open spec fn entry_dir_spec(self) -> OrdinalDirection {
        match self {
            Destination::Airport(a) => a.launch_direction.widen_spec(),
            Destination::Exit(e) => e.entry_direction,
        }
    }

    /// Initial heading of a journey from this point.
    pub fn entry_dir(&self) -> (r: OrdinalDirection)
        ensures
            r == self.entry_dir_spec(),
    {
        match self {
            Destination::Airport(a) => a.launch_direction.widen(),
            Destination::Exit(e) => e.entry_direction,
        }
    }

    pub open spec fn exit_dir_spec(self) -> OrdinalDirection {
        match self {
            Destination::Airport(a) => a.launch_direction.widen_spec(),
            Destination::Exit(e) => e.exit_direction,
        }
    }

    /// Required heading of a journey ending at this point.
    pub fn exit_dir(&self) -> (r: OrdinalDirection)
        ensures
            r == self.exit_dir_spec(),
    {
        match self {
            Destination::Airport(a) => a.launch_direction.widen(),
            Destination::Exit(e) => e.exit_direction,
        }
    }

    pub open spec fn entry_height_spec(self) -> u16 {
        match self {
            Destination::Airport(_) => 0,
            Destination::Exit(e) => e.entry_location.2,
        }
    }

    /// Initial flight level of a journey from this point.
    pub fn entry_height(&self) -> (r: u16)
        ensures
            r == self.entry_height_spec(),
    {
        match self {
            Destination::Airport(_) => 0,
            Destination::Exit(e) => e.entry_location.2,
        }
    }

    pub open spec fn display_spec(self) -> Seq<char> {
        match self {
            Destination::Airport(a) => "A"@ + dec_digits(a.index as int),
            Destination::Exit(e) => "E"@ + dec_digits(e.index as int),
        }
    }

    /// Short status text: the endpoint's letter and number.
    pub fn to_display_string(&self) -> (r: String)
        ensures
            r@ == self.display_spec(),
    {
        let mut s: String;
        let n: u16;
        match *self {
            Destination::Airport(a) => {
                s = String::from_str("A");
                n = a.index;
            },
            Destination::Exit(e) => {
                s = String::from_str("E");
                n = e.index;
            },
        }
        let d = u16_to_string(n);
        s.append(d.as_str());
        proof {
            assert(s@ =~= self.display_spec());
        }
        s
    }

    pub open spec fn exit_height_spec(self) -> u16 {
        match self {
            Destination::Airport(_) => 0,
            Destination::Exit(e) => e.exit_location.2,
        }
    }

    /// Required flight level of a journey ending at this point.
    pub fn exit_height(&self) -> (r: u16)
        ensures
            r == self.exit_height_spec(),
    {
        match self {
            Destination::Airport(_) => 0,
            Destination::Exit(e) => e.exit_location.2,
        }
    }
}

} // verus!
