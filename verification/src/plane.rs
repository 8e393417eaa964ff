use vstd::prelude::*;
use vstd::string::*;

use crate::command::{
    Command, CommandTarget, CompleteAltitude, CompleteAnd, CompleteAt, CompleteCommandSegment,
    CompleteIn, CompletePointOfInterest, CompleteTurn, SetVisibility,
};
use crate::direction::OrdinalDirection;
use crate::location::{add_clamped, clamp_u16, AirLocation, Destination, GroundLocation, Location};
use crate::map::MapStatic;
use crate::map_objects::{Beacon, GridRenderable, ListRenderable};
use crate::text::{dec_digits, lower_val, push_char, u16_to_string};

verus! {

/// Display mode of an entity.
#[derive(Debug, Clone, Copy, PartialEq, Eq, Structural)]
pub enum Visibility {
    Marked,
    Unmarked,
    Ignored,
}

impl SetVisibility {
    pub open spec fn as_visibility_spec(self) -> Visibility {
        match self {
            SetVisibility::Mark => Visibility::Marked,
            SetVisibility::Unmark => Visibility::Unmarked,
            SetVisibility::Ignore => Visibility::Ignored,
        }
    }

    /// The display mode this directive sets.
    pub fn as_visibility(self) -> (r: Visibility)
        ensures
            r == self.as_visibility_spec(),
    {
        match self {
            SetVisibility::Mark => Visibility::Marked,
            SetVisibility::Unmark => Visibility::Unmarked,
            SetVisibility::Ignore => Visibility::Ignored,
        }
    }
}

/// Addition clamped at the top of the range.
pub open spec fn sat_add_u16(a: u16, b: u16) -> u16 {
    if a + b > 0xffff {
        0xffff
    } else {
        (a + b) as u16
    }
}

/// Subtraction clamped at zero.
pub open spec fn sat_sub_u16(a: u16, b: u16) -> u16 {
    if a < b {
        0
    } else {
        (a - b) as u16
    }
}

/// A counter stepped by one, wrapping at the top of its range.
pub open spec fn wrap_inc_u32(x: u32) -> u32 {
    if x == 0xffff_ffff {
        0
    } else {
        (x + 1) as u32
    }
}

/// One autonomous entity and everything the interpreter may read or
/// write of it.
#[derive(Debug)]
pub struct Plane {
    pub location: Location,
    pub destination: Destination,
    pub target_flight_level: u16,
    pub callsign: char,
    pub is_jet: bool,
    pub ticks_active: u32,
    pub target_direction: OrdinalDirection,
    pub current_direction: OrdinalDirection,
    pub show: Visibility,
    pub command: Option<CompleteCommandSegment>,
}

impl Plane {
    /// A standing command never holds an indirection node.
    pub open spec fn wf(self) -> bool {
        match self.command {
            Some(c) => c.ref_free(),
            None => true,
        }
    }

    /// The ground square below the entity while airborne.
    pub open spec fn air_ground(self) -> Option<GroundLocation> {
        match self.location {
            Location::Airport(_) => None,
            Location::Flight(al) => Some(al.ground_spec()),
        }
    }

    pub open spec fn flight_level_spec(self) -> u16 {
        match self.location {
            Location::Airport(_) => 0,
            Location::Flight(al) => al.2,
        }
    }

    /// Current flight level; zero on the ground.
    pub fn flight_level(&self) -> (r: u16)
        ensures
            r == self.flight_level_spec(),
    {
        match self.location {
            Location::Airport(_) => 0,
            Location::Flight(al) => al.2,
        }
    }
}

/// Whether this beacon is the one an At node is waiting for, with
/// the entity standing over it.
pub open spec fn beacon_matches(b: Beacon, n: u16, p: Plane) -> bool {
    b.index == n && p.air_ground() == Some(b.location)
}

impl CompletePointOfInterest {
    /// An At node's test: the entity stands over a beacon carrying
    /// the awaited number.
    pub open spec fn satisfied_spec(self, p: Plane, m: MapStatic) -> bool {
        match self {
            CompletePointOfInterest::Beacon(n) => exists|i: int|
                0 <= i < m.beacons@.len() && beacon_matches(#[trigger] m.beacons@[i], n, p),
        }
    }

    pub fn is_satisfied(&self, plane: &Plane, map: &MapStatic) -> (r: bool)
        ensures
            r == self.satisfied_spec(*plane, *map),
    {
        let CompletePointOfInterest::Beacon(n) = *self;
        let len = map.beacons.len();
        let mut i: usize = 0;
        while i < len
            invariant
                *self == CompletePointOfInterest::Beacon(n),
                len == map.beacons@.len(),
                i <= len,
                forall|j: int| 0 <= j < i ==> !beacon_matches(#[trigger] map.beacons@[j], n, *plane),
            decreases len - i,
        {
            let b = map.beacons[i];
            let at_beacon = match plane.location {
                Location::Airport(_) => false,
                Location::Flight(al) => b.location == al.ground(),
            };
            if at_beacon && b.index == n {
                proof {
                    assert(beacon_matches(map.beacons@[i as int], n, *plane));
                }
                return true;
            }
            i += 1;
        }
        false
    }
}

/// What one evaluation of a command tree does to an entity: the new
/// entity state, and whether the tree fully resolved.
pub open spec fn spec_exec(p: Plane, c: CompleteCommandSegment, m: MapStatic) -> (Plane, bool)
    decreases c,
{
    match c {
        CompleteCommandSegment::SetVisibility(v) => (
            Plane { show: v.as_visibility_spec(), ..p },
            true,
        ),
        CompleteCommandSegment::Altitude(a) => (
            Plane {
                target_flight_level: match a {
                    CompleteAltitude::To(x) => x,
                    CompleteAltitude::Plus(x) => sat_add_u16(p.target_flight_level, x),
                    CompleteAltitude::Minus(x) => sat_sub_u16(p.target_flight_level, x),
                },
                ..p
            },
            true,
        ),
        CompleteCommandSegment::Turn(t) => {
            let h = t->ToHeading_0;
            (
                Plane {
                    target_direction: h,
                    command: if p.command matches Some(CompleteCommandSegment::Circle(_)) {
                        None
                    } else {
                        p.command
                    },
                    ..p
                },
                true,
            )
        },
        CompleteCommandSegment::Circle(d) => (
            Plane {
                target_direction: p.current_direction.rotated_90_spec(d.as_direction_spec()),
                command: Some(c),
                ..p
            },
            true,
        ),
        CompleteCommandSegment::At(a) => {
            if a.poi.satisfied_spec(p, m) {
                spec_exec(Plane { command: None, ..p }, *a.tail, m)
            } else {
                (Plane { command: Some(c), ..p }, false)
            }
        },
        CompleteCommandSegment::And(a) => {
            let (p1, ok) = spec_exec(p, *a.left, m);
            if ok {
                spec_exec(p1, *a.right, m)
            } else {
                (Plane { command: Some(c), ..p1 }, false)
            }
        },
        CompleteCommandSegment::In(i) => {
            if i.time > 0 {
                (
                    Plane {
                        command: Some(
                            CompleteCommandSegment::In(
                                CompleteIn { tail: i.tail, time: (i.time - 1) as u16 },
                            ),
                        ),
                        ..p
                    },
                    true,
                )
            } else {
                spec_exec(Plane { command: None, ..p }, *i.tail, m)
            }
        },
        CompleteCommandSegment::Empty => (p, true),
        CompleteCommandSegment::Ref(_) => (p, true),
    }
}

/// Evaluating a reference-free tree leaves the entity well-formed:
/// whatever it re-arms is a sub-tree of that tree.
pub proof fn lemma_spec_exec_wf(p: Plane, c: CompleteCommandSegment, m: MapStatic)
    requires
        p.wf(),
        c.ref_free(),
    ensures
        spec_exec(p, c, m).0.wf(),
    decreases c,
{
    match c {
        CompleteCommandSegment::At(a) => {
            if a.poi.satisfied_spec(p, m) {
                lemma_spec_exec_wf(Plane { command: None, ..p }, *a.tail, m);
            }
        },
        CompleteCommandSegment::And(a) => {
            lemma_spec_exec_wf(p, *a.left, m);
            let (p1, ok) = spec_exec(p, *a.left, m);
            if ok {
                lemma_spec_exec_wf(p1, *a.right, m);
            }
        },
        CompleteCommandSegment::In(i) => {
            if i.time == 0 {
                lemma_spec_exec_wf(Plane { command: None, ..p }, *i.tail, m);
            }
        },
        _ => {},
    }
}

/// One motion step: climb or descend one level toward the target,
/// turn one step toward the target heading, advance one square; a
/// grounded entity launches once a positive altitude is ordered.
pub open spec fn spec_moved(p: Plane) -> Plane {
    match p.location {
        Location::Flight(al) => {
            if p.is_jet || p.ticks_active % 2 == 0 {
                let fl = al.2;
                let fl2 = if p.target_flight_level < fl {
                    (fl - 1) as u16
                } else if p.target_flight_level > fl {
                    (fl + 1) as u16
                } else {
                    fl
                };
                let cd = if p.target_direction == p.current_direction {
                    p.current_direction
                } else {
                    p.current_direction.rotate_toward_spec(p.target_direction)
                };
                let off = cd.offset_spec();
                Plane {
                    location: Location::Flight(
                        AirLocation(clamp_u16(al.0 + off.0), clamp_u16(al.1 + off.1), fl2),
                    ),
                    current_direction: cd,
                    ..p
                }
            } else {
                p
            }
        },
        Location::Airport(port) => {
            if p.target_flight_level > 0 {
                let g = port.location.offset_spec(
                    port.launch_direction.widen_spec().offset_spec(),
                );
                Plane { location: Location::Flight(AirLocation(g.0, g.1, 1)), ..p }
            } else {
                p
            }
        },
    }
}

/// One whole tick of an entity: evaluate the standing command, then
/// move, then advance the age counter.
pub open spec fn spec_tick(p: Plane, m: MapStatic) -> Plane {
    let p1 = match p.command {
        Some(cmd) => spec_exec(p, cmd, m).0,
        None => p,
    };
    let p2 = spec_moved(p1);
    Plane { ticks_active: wrap_inc_u32(p2.ticks_active), ..p2 }
}

/// Gate persistence: an unsatisfied gate re-arms the whole gate as
/// the standing command, touches nothing else of the entity, and
/// reports unresolved; on an evaluation where its condition holds it
/// clears the standing command and its tail runs.
pub proof fn lemma_gate_persistence(p: Plane, a: CompleteAt, m: MapStatic)
    ensures
        !a.poi.satisfied_spec(p, m) ==> spec_exec(p, CompleteCommandSegment::At(a), m) == (
            Plane { command: Some(CompleteCommandSegment::At(a)), ..p },
            false,
        ),
        a.poi.satisfied_spec(p, m) ==> spec_exec(p, CompleteCommandSegment::At(a), m) == spec_exec(
            Plane { command: None, ..p },
            *a.tail,
            m,
        ),
{
}

/// A whole tick keeps an unsatisfied standing gate standing,
/// unchanged.
pub proof fn lemma_gate_persistence_tick(p: Plane, a: CompleteAt, m: MapStatic)
    requires
        p.command == Some(CompleteCommandSegment::At(a)),
        !a.poi.satisfied_spec(p, m),
    ensures
        spec_tick(p, m).command == Some(CompleteCommandSegment::At(a)),
{
}

/// The standing command evaluated some number of times, one
/// evaluation per tick, without the motion part of a tick (which
/// never touches the standing command).
pub open spec fn eval_standing_n(p: Plane, m: MapStatic, n: nat) -> Plane
    decreases n,
{
    if n == 0 {
        p
    } else {
        let p1 = match p.command {
            Some(c) => spec_exec(p, c, m).0,
            None => p,
        };
        eval_standing_n(p1, m, (n - 1) as nat)
    }
}

/// Delay exactness, first part: a standing delay of `t` ticks counts
/// down by exactly one per evaluation, touching nothing else of the
/// entity, for its first `t` evaluations.
pub proof fn lemma_delay_countdown(
    p: Plane,
    tail: CompleteCommandSegment,
    t: u16,
    m: MapStatic,
    k: nat,
)
    requires
        p.command == Some(
            CompleteCommandSegment::In(CompleteIn { tail: Box::new(tail), time: t }),
        ),
        k <= t,
    ensures
        eval_standing_n(p, m, k) == (Plane {
            command: Some(
                CompleteCommandSegment::In(
                    CompleteIn { tail: Box::new(tail), time: (t - k) as u16 },
                ),
            ),
            ..p
        }),
    decreases k,
{
    if k == 0 {
        assert(eval_standing_n(p, m, 0) == p);
    } else {
        let p1 = Plane {
            command: Some(
                CompleteCommandSegment::In(
                    CompleteIn { tail: Box::new(tail), time: (t - 1) as u16 },
                ),
            ),
            ..p
        };
        assert(eval_standing_n(p, m, k) == eval_standing_n(p1, m, (k - 1) as nat));
        lemma_delay_countdown(p1, tail, (t - 1) as u16, m, (k - 1) as nat);
    }
}

/// Delay exactness, second part: the evaluation after the countdown
/// reaches zero is the one that runs the tail — never earlier, never
/// later.
pub proof fn lemma_delay_exactness(p: Plane, tail: CompleteCommandSegment, t: u16, m: MapStatic)
    requires
        p.command == Some(
            CompleteCommandSegment::In(CompleteIn { tail: Box::new(tail), time: t }),
        ),
    ensures
        eval_standing_n(p, m, t as nat + 1) == spec_exec(Plane { command: None, ..p }, tail, m).0,
    decreases t,
{
    if t == 0 {
        assert(eval_standing_n(p, m, 1) == eval_standing_n(
            spec_exec(Plane { command: None, ..p }, tail, m).0,
            m,
            0,
        ));
    } else {
        let p1 = Plane {
            command: Some(
                CompleteCommandSegment::In(
                    CompleteIn { tail: Box::new(tail), time: (t - 1) as u16 },
                ),
            ),
            ..p
        };
        assert(eval_standing_n(p, m, t as nat + 1) == eval_standing_n(p1, m, t as nat));
        lemma_delay_exactness(p1, tail, (t - 1) as u16, m);
    }
}

impl Plane {
    /// Evaluates one command tree against this entity, applying its
    /// effects and re-arming whatever part could not resolve in this
    /// tick. Relative altitude changes saturate at the ends of the
    /// range rather than wrapping.
    pub fn exec(&mut self, command: CompleteCommandSegment, map: &MapStatic) -> (resolved: bool)
        requires
            old(self).wf(),
            command.ref_free(),
        ensures
            (*final(self), resolved) == spec_exec(*old(self), command, *map),
            final(self).wf(),
        decreases command,
    {
        proof {
            lemma_spec_exec_wf(*old(self), command, *map);
        }
        match command {
            CompleteCommandSegment::SetVisibility(v) => {
                self.show = v.as_visibility();
                true
            },
            CompleteCommandSegment::Altitude(a) => {
                self.target_flight_level = match a {
                    CompleteAltitude::To(x) => x,
                    CompleteAltitude::Plus(x) => {
                        if self.target_flight_level > 0xffff - x {
                            0xffff
                        } else {
                            self.target_flight_level + x
                        }
                    },
                    CompleteAltitude::Minus(x) => {
                        if self.target_flight_level < x {
                            0
                        } else {
                            self.target_flight_level - x
                        }
                    },
                };
                true
            },
            CompleteCommandSegment::Turn(t) => {
                let CompleteTurn::ToHeading(h) = t;
                self.target_direction = h;
                let clear = match &self.command {
                    Some(CompleteCommandSegment::Circle(_)) => true,
                    _ => false,
                };
                if clear {
                    self.command = None;
                }
                true
            },
            CompleteCommandSegment::Circle(d) => {
                self.target_direction = self.current_direction.rotated_90(d.as_direction());
                self.command = Some(CompleteCommandSegment::Circle(d));
                true
            },
            CompleteCommandSegment::At(a) => {
                let CompleteAt { tail, poi } = a;
                if poi.is_satisfied(&*self, map) {
                    self.command = None;
                    self.exec(*tail, map)
                } else {
                    self.command = Some(
                        CompleteCommandSegment::At(CompleteAt { tail, poi }),
                    );
                    false
                }
            },
            CompleteCommandSegment::And(a) => {
                let CompleteAnd { left, right } = a;
                let l: CompleteCommandSegment = *left;
                let lcopy = l.duplicate();
                if self.exec(l, map) {
                    self.exec(*right, map)
                } else {
                    self.command = Some(
                        CompleteCommandSegment::And(
                            CompleteAnd { left: Box::new(lcopy), right },
                        ),
                    );
                    false
                }
            },
            CompleteCommandSegment::In(i) => {
                let CompleteIn { tail, time } = i;
                if time > 0 {
                    self.command = Some(
                        CompleteCommandSegment::In(CompleteIn { tail, time: time - 1 }),
                    );
                    true
                } else {
                    self.command = None;
                    self.exec(*tail, map)
                }
            },
            CompleteCommandSegment::Empty => true,
            CompleteCommandSegment::Ref(_) => {
                proof {
                    assert(false);
                }
                true
            },
        }
    }

    /// One simulation tick of this entity.
    pub fn tick(&mut self, map: &MapStatic)
        requires
            old(self).wf(),
        ensures
            *final(self) == spec_tick(*old(self), *map),
            final(self).wf(),
    {
        let cmd_opt = match &self.command {
            Some(c) => Some(c.duplicate()),
            None => None,
        };
        if let Some(cmd) = cmd_opt {
            self.exec(cmd, map);
        }
        match self.location {
            Location::Flight(al) => {
                if self.is_jet || self.ticks_active % 2 == 0 {
                    let AirLocation(x, y, fl) = al;
                    let fl2: u16 = if self.target_flight_level < fl {
                        fl - 1
                    } else if self.target_flight_level > fl {
                        fl + 1
                    } else {
                        fl
                    };
                    if !(self.target_direction == self.current_direction) {
                        self.current_direction = self.current_direction.rotate_toward(
                            self.target_direction,
                        );
                    }
                    let off = self.current_direction.as_offset();
                    self.location = Location::Flight(
                        AirLocation(add_clamped(x, off.0), add_clamped(y, off.1), fl2),
                    );
                }
            },
            Location::Airport(port) => {
                if self.target_flight_level > 0 {
                    let g = port.location.offset_by(port.launch_direction.widen().as_offset());
                    self.location = Location::Flight(AirLocation(g.0, g.1, 1));
                }
            },
        }
        self.ticks_active = if self.ticks_active == 0xffff_ffff {
            0
        } else {
            self.ticks_active + 1
        };
    }

    /// The underline put around an entity the draft command
    /// addresses.
    pub open spec fn emphasis_spec(self, command: Command) -> Seq<char> {
        if command.target matches CommandTarget::Plane(c) && lower_val(c) == lower_val(
            self.callsign,
        ) {
            "\x1b[4m"@
        } else {
            Seq::<char>::empty()
        }
    }

    fn emphasis(&self, command: &Command) -> (r: &'static str)
        ensures
            r@ == self.emphasis_spec(*command),
    {
        let r: &'static str = match command.target {
            CommandTarget::Plane(c) => {
                if crate::text::eq_ignore_case(c, self.callsign) {
                    "\x1b[4m"
                } else {
                    ""
                }
            },
            _ => "",
        };
        proof {
            reveal_strlit("");
            assert(""@ =~= Seq::<char>::empty());
        }
        r
    }

    /// Bright green for a marked entity, dim for the others.
    pub open spec fn color_spec(self) -> Seq<char> {
        if self.show is Marked {
            "\x1b[32m"@
        } else {
            "\x1b[2m"@
        }
    }
}

impl GridRenderable for Plane {
    open spec fn spec_location(&self) -> Option<GroundLocation> {
        self.air_ground()
    }

    open spec fn spec_render(&self, command: Command) -> Seq<char> {
        self.emphasis_spec(command) + self.color_spec() + seq![self.callsign] + dec_digits(
            self.flight_level_spec() as int,
        ) + "\x1b[24m\x1b[39m\x1b[22m"@
    }

    fn location(&self) -> (r: Option<GroundLocation>) {
        match self.location {
            Location::Airport(_) => None,
            Location::Flight(al) => Some(al.ground()),
        }
    }

    fn render(&self, command: &Command) -> (r: String) {
        let mut s = String::from_str(self.emphasis(command));
        if matches!(self.show, Visibility::Marked) {
            s.append("\x1b[32m");
        } else {
            s.append("\x1b[2m");
        }
        push_char(&mut s, self.callsign);
        let d = u16_to_string(self.flight_level());
        s.append(d.as_str());
        s.append("\x1b[24m\x1b[39m\x1b[22m");
        proof {
            assert(s@ =~= GridRenderable::spec_render(self, *command));
        }
        s
    }
}

impl ListRenderable for Plane {
    open spec fn spec_render(&self, command: Command) -> Seq<char> {
        let colorize = self.show is Marked;
        "\x1b[0m"@ + self.emphasis_spec(command) + self.color_spec() + seq![self.callsign]
            + dec_digits(self.flight_level_spec() as int) + "\x1b[24m\x1b[39m"@ + (match self
            .location {
            Location::Flight(_) => "   "@,
            Location::Airport(a) => "@"@ + a.display_spec(colorize),
        }) + " "@ + self.destination.display_spec() + "   "@ + (match (self.show, self.command) {
            (Visibility::Ignored, _) => "---"@,
            (Visibility::Unmarked, Some(c)) => c.render_spec(false),
            (Visibility::Marked, Some(c)) => c.render_spec(true),
            _ => Seq::<char>::empty(),
        })
    }

    fn render(&self, command: &Command) -> (r: String) {
        let colorize = matches!(self.show, Visibility::Marked);
        let mut s = String::from_str("\x1b[0m");
        s.append(self.emphasis(command));
        if colorize {
            s.append("\x1b[32m");
        } else {
            s.append("\x1b[2m");
        }
        push_char(&mut s, self.callsign);
        let d = u16_to_string(self.flight_level());
        s.append(d.as_str());
        s.append("\x1b[24m\x1b[39m");
        match &self.location {
            Location::Flight(_) => {
                s.append("   ");
            },
            Location::Airport(a) => {
                s.append("@");
                let t = a.to_display_string(colorize);
                s.append(t.as_str());
            },
        }
        s.append(" ");
        let t = self.destination.to_display_string();
        s.append(t.as_str());
        s.append("   ");
        match (&self.show, &self.command) {
            (Visibility::Ignored, _) => {
                s.append("---");
            },
            (Visibility::Unmarked, Some(c)) => {
                let t = c.render(false);
                s.append(t.as_str());
            },
            (Visibility::Marked, Some(c)) => {
                let t = c.render(true);
                s.append(t.as_str());
            },
            _ => {},
        }
        proof {
            assert(s@ =~= ListRenderable::spec_render(self, *command));
        }
        s
    }
}

} // verus!
