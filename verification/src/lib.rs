use vstd::prelude::*;
use vstd::string::*;

pub mod command;
pub mod direction;
pub mod location;
pub mod map;
pub mod map_objects;
pub mod plane;
pub mod text;

verus! {

/// How a frozen simulation ended.
#[derive(Debug, Clone, Copy, PartialEq, Eq, Structural)]
pub enum GameStatus {
    PlanesCrashed(char, char),
    PlaneExited(char),
    PlaneFailedLanding(char),
}

impl GameStatus {
    pub open spec fn message_spec(self) -> Seq<char> {
        match self {
            GameStatus::PlanesCrashed(a, b) => "Plane "@ + seq![a] + " crashed into plane "@
                + seq![b] + "."@,
            GameStatus::PlaneExited(p) => "Plane "@ + seq![p] + " exited improperly."@,
            GameStatus::PlaneFailedLanding(p) => "Plane "@ + seq![p] + " landed improperly."@,
        }
    }

    /// The failure message shown on the final frame.
    pub fn message(&self) -> (r: String)
        ensures
            r@ == self.message_spec(),
    {
        let mut s = String::from_str("Plane ");
        match *self {
            GameStatus::PlanesCrashed(a, b) => {
                crate::text::push_char(&mut s, a);
                s.append(" crashed into plane ");
                crate::text::push_char(&mut s, b);
                s.append(".");
            },
            GameStatus::PlaneExited(p) => {
                crate::text::push_char(&mut s, p);
                s.append(" exited improperly.");
            },
            GameStatus::PlaneFailedLanding(p) => {
                crate::text::push_char(&mut s, p);
                s.append(" landed improperly.");
            },
        }
        proof {
            assert(s@ =~= self.message_spec());
        }
        s
    }
}

/// Settings of one simulation run. Timing itself lives outside the
/// library, so the tick interval is carried as plain milliseconds.
#[derive(Debug, Clone, Copy, PartialEq, Eq, Structural)]
pub struct GameSettings {
    /// Ticks between plane spawns.
    pub plane_spawn_rate: u32,
    /// Milliseconds per tick.
    pub tick_rate_ms: u64,
    /// Whether generated destinations may be airports.
    pub allow_landing: bool,
}

/// Numeric value of a decimal digit character.
pub fn digit_as_num(digit: char) -> (r: u16)
    requires
        '0' <= digit <= '9',
    ensures
        r == digit as u16 - 48,
        r <= 9,
{
    (digit as u16) - ('0' as u16)
}

} // verus!
