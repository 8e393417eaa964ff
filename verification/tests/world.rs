use airtower::command::{
    Command, CompleteAltitude, CompleteCommand, CompleteCommandSegment, CompleteCommandTarget,
    CompleteRef, CompleteTurn,
};
use airtower::direction::OrdinalDirection;
use airtower::location::{AirLocation, Destination, GroundLocation, Location};
use airtower::map::{remove_indices, GameMap, MapStatic};
use airtower::map_objects::{Beacon, Exit};
use airtower::plane::{Plane, Visibility};
use airtower::{GameSettings, GameStatus};

fn world_map() -> MapStatic {
    MapStatic {
        name: String::from("crossing"),
        author: String::from("nobody"),
        width: 20,
        height: 20,
        exits: vec![
            Exit {
                index: 0,
                entry_location: AirLocation(0, 10, 7),
                entry_direction: OrdinalDirection::East,
                exit_location: AirLocation(19, 10, 7),
                exit_direction: OrdinalDirection::East,
            },
            Exit {
                index: 1,
                entry_location: AirLocation(10, 0, 7),
                entry_direction: OrdinalDirection::South,
                exit_location: AirLocation(10, 19, 7),
                exit_direction: OrdinalDirection::South,
            },
        ],
        beacons: vec![Beacon {
            index: 2,
            location: GroundLocation(8, 8),
        }],
        airports: vec![],
        path_markers: vec![],
    }
}

fn settings() -> GameSettings {
    GameSettings {
        plane_spawn_rate: 1000,
        tick_rate_ms: 1000,
        allow_landing: false,
    }
}

fn world() -> GameMap {
    GameMap::new(settings(), world_map())
}

fn plane(callsign: char, x: u16, y: u16) -> Plane {
    Plane {
        location: Location::Flight(AirLocation(x, y, 7)),
        destination: Destination::Exit(world_map().exits[0]),
        target_flight_level: 7,
        callsign,
        is_jet: true,
        ticks_active: 0,
        target_direction: OrdinalDirection::East,
        current_direction: OrdinalDirection::East,
        show: Visibility::Marked,
        command: None,
    }
}

fn alt_to(v: u16) -> CompleteCommandSegment {
    CompleteCommandSegment::Altitude(CompleteAltitude::To(v))
}

fn turn_north() -> CompleteCommandSegment {
    CompleteCommandSegment::Turn(CompleteTurn::ToHeading(OrdinalDirection::North))
}

fn reference(n: u16) -> CompleteCommandSegment {
    CompleteCommandSegment::Ref(CompleteRef(n))
}

fn to_slot(n: u16, head: CompleteCommandSegment) -> CompleteCommand {
    CompleteCommand {
        target: CompleteCommandTarget::Slot(n),
        head,
    }
}

fn to_plane(c: char, head: CompleteCommandSegment) -> CompleteCommand {
    CompleteCommand {
        target: CompleteCommandTarget::Plane(c),
        head,
    }
}

#[test]
fn dispatch_reaches_the_named_plane_case_insensitively() {
    let mut gm = world();
    gm.planes.push(plane('r', 5, 5));
    gm.planes.push(plane('K', 9, 9));
    gm.exec(to_plane('R', alt_to(9)));
    assert_eq!(gm.planes[0].target_flight_level, 9);
    assert_eq!(gm.planes[1].target_flight_level, 7);
    gm.exec(to_plane('k', alt_to(3)));
    assert_eq!(gm.planes[1].target_flight_level, 3);
}

#[test]
fn dispatch_to_an_unknown_plane_is_a_no_op() {
    let mut gm = world();
    gm.planes.push(plane('r', 5, 5));
    gm.exec(to_plane('z', alt_to(9)));
    assert_eq!(gm.planes[0].target_flight_level, 7);
}

#[test]
fn reference_resolves_to_the_stored_tree() {
    let mut gm = world();
    gm.exec(to_slot(7, alt_to(5)));
    // Resolving an indirection yields the stored tree itself.
    assert_eq!(gm.resolve_segment(reference(7)), alt_to(5));
    // An unset slot resolves to an empty node.
    assert_eq!(
        gm.resolve_segment(reference(9)),
        CompleteCommandSegment::Empty
    );
    // Behaviorally identical to the direct command.
    gm.planes.push(plane('r', 5, 5));
    gm.exec(to_plane('r', reference(7)));
    assert_eq!(gm.planes[0].target_flight_level, 5);
}

#[test]
fn traverse_command_rewrites_in_place() {
    let mut gm = world();
    gm.exec(to_slot(7, alt_to(5)));
    let mut tree = reference(7);
    gm.traverse_command(&mut tree);
    assert_eq!(tree, alt_to(5));
}

#[test]
fn stored_commands_are_resolved_at_store_time() {
    let mut gm = world();
    gm.exec(to_slot(7, alt_to(5)));
    gm.exec(to_slot(3, reference(7)));
    // Slot 3 holds the resolved tree, not the indirection.
    assert_eq!(gm.resolve_segment(reference(3)), alt_to(5));
    // Overwriting slot 7 later does not reach back into slot 3.
    gm.exec(to_slot(7, turn_north()));
    assert_eq!(gm.resolve_segment(reference(3)), alt_to(5));
}

#[test]
fn slot_overwrite_is_atomic() {
    let mut gm = world();
    gm.exec(to_slot(7, alt_to(5)));
    gm.exec(to_slot(7, turn_north()));
    assert_eq!(gm.resolve_segment(reference(7)), turn_north());
}

#[test]
fn removal_keeps_the_other_entities_in_order() {
    let mut planes = vec![
        plane('a', 1, 1),
        plane('b', 4, 4),
        plane('c', 8, 8),
        plane('d', 12, 12),
        plane('e', 16, 16),
    ];
    let idx: Vec<usize> = vec![1, 3];
    remove_indices(&mut planes, &idx);
    let callsigns: Vec<char> = planes.iter().map(|p| p.callsign).collect();
    assert_eq!(callsigns, vec!['a', 'c', 'e']);
}

#[test]
fn removal_of_everything_leaves_nothing() {
    let mut planes = vec![plane('a', 1, 1), plane('b', 4, 4)];
    let idx: Vec<usize> = vec![0, 1];
    remove_indices(&mut planes, &idx);
    assert!(planes.is_empty());
}

#[test]
fn tick_removes_a_plane_that_exits_properly() {
    let mut gm = world();
    // One step west of the exit at (19, 10, 7), heading east. The
    // tick counter starts off the spawn cadence so that no fresh
    // plane appears during the test.
    gm.tick_no = 1;
    gm.planes.push(plane('r', 18, 10));
    gm.tick();
    assert!(gm.planes.is_empty());
    assert_eq!(gm.planes_landed, 1);
    assert_eq!(gm.exit_state, None);
    assert_eq!(gm.tick_no, 2);
}

#[test]
fn tick_freezes_on_an_improper_border_exit() {
    let mut gm = world();
    // Heading east on the border row but not at the exit height.
    let mut p = plane('r', 18, 5);
    p.location = Location::Flight(AirLocation(18, 5, 4));
    p.target_flight_level = 4;
    gm.planes.push(p);
    gm.tick();
    assert_eq!(gm.exit_state, Some(GameStatus::PlaneExited('r')));
    // A frozen world no longer advances.
    let tick_before = gm.tick_no;
    gm.tick();
    assert_eq!(gm.tick_no, tick_before);
}

#[test]
fn tick_freezes_on_a_failed_landing() {
    let mut gm = world();
    let mut p = plane('r', 5, 5);
    p.location = Location::Flight(AirLocation(5, 5, 1));
    p.target_flight_level = 0;
    gm.planes.push(p);
    gm.tick();
    assert_eq!(gm.exit_state, Some(GameStatus::PlaneFailedLanding('r')));
}

#[test]
fn tick_detects_a_collision_after_motion() {
    let mut gm = world();
    gm.planes.push(plane('r', 5, 5));
    gm.planes.push(plane('k', 5, 7));
    // Both fly east one step; rows 5 and 7 stay two apart vertically,
    // so no collision yet.
    gm.tick();
    assert_eq!(gm.exit_state, None);
    // Nudge one plane next to the other.
    gm.planes[1].location = Location::Flight(AirLocation(6, 6, 7));
    gm.tick();
    assert_eq!(gm.exit_state, Some(GameStatus::PlanesCrashed('r', 'k')));
}

#[test]
fn spawn_cadence_adds_a_plane() {
    let mut gm = GameMap::new(
        GameSettings {
            plane_spawn_rate: 1,
            tick_rate_ms: 1000,
            allow_landing: false,
        },
        world_map(),
    );
    gm.tick();
    assert_eq!(gm.planes.len(), 1);
    let p = &gm.planes[0];
    assert!(p.callsign.is_ascii_alphabetic());
    assert_eq!(p.command, None);
    gm.tick();
    assert_eq!(gm.planes.len(), 2);
    assert_ne!(
        gm.planes[0].callsign.to_ascii_lowercase(),
        gm.planes[1].callsign.to_ascii_lowercase()
    );
}

#[test]
fn keystrokes_to_dispatch_round_trip() {
    let mut gm = world();
    gm.planes.push(plane('r', 5, 5));
    let mut cmd = Command::new();
    for c in "ra9".chars() {
        cmd.input(c);
    }
    let complete = cmd.to_complete().expect("command should finalize");
    gm.exec(complete);
    assert_eq!(gm.planes[0].target_flight_level, 9);
}

#[test]
fn gate_standing_command_across_world_ticks() {
    let mut gm = world();
    // A slow propeller plane far from beacon 2, so several ticks
    // pass while the At node keeps waiting.
    let mut p = plane('r', 2, 8);
    p.is_jet = false;
    p.current_direction = OrdinalDirection::East;
    p.target_direction = OrdinalDirection::East;
    gm.planes.push(p);
    let gate = CompleteCommandSegment::At(airtower::command::CompleteAt {
        tail: Box::new(turn_north()),
        poi: airtower::command::CompletePointOfInterest::Beacon(2),
    });
    gm.exec(to_plane('r', gate.duplicate()));
    assert_eq!(gm.planes[0].command, Some(gate.duplicate()));
    // Planes move east every other tick from (2,8): after 4 ticks the
    // plane is at (4,8), still short of the beacon at (8,8).
    for _ in 0..4 {
        gm.tick();
        assert_eq!(gm.planes[0].command, Some(gate.duplicate()));
        assert_eq!(gm.planes[0].target_direction, OrdinalDirection::East);
    }
    // Put it one step short of the beacon: the next tick still
    // finds it off the beacon (evaluation precedes motion), and the
    // tick after finds it there, so the turn applies.
    gm.planes[0].location = Location::Flight(AirLocation(7, 8, 7));
    gm.planes[0].ticks_active = 0;
    gm.tick();
    assert_eq!(gm.planes[0].command, Some(gate.duplicate()));
    assert_eq!(
        gm.planes[0].location,
        Location::Flight(AirLocation(8, 8, 7))
    );
    gm.tick();
    assert_eq!(gm.planes[0].command, None);
    assert_eq!(gm.planes[0].target_direction, OrdinalDirection::North);
}
