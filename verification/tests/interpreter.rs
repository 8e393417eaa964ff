use airtower::command::{
    CompleteAltitude, CompleteAnd, CompleteAt, CompleteCommandSegment, CompleteIn,
    CompletePointOfInterest, CompleteTurn, SetVisibility,
};
use airtower::direction::{CardinalDirection, CircleDirection, OrdinalDirection};
use airtower::location::{AirLocation, Destination, GroundLocation, Location};
use airtower::map::MapStatic;
use airtower::map_objects::{Beacon, Exit};
use airtower::plane::{Plane, Visibility};
use airtower::direction::OrdinalDirection::{
    East, North, NorthEast, NorthWest, South, SouthEast, SouthWest, West,
};

fn test_map() -> MapStatic {
    MapStatic {
        name: String::from("proving grounds"),
        author: String::from("nobody"),
        width: 20,
        height: 20,
        exits: vec![Exit {
            index: 0,
            entry_location: AirLocation(0, 10, 7),
            entry_direction: OrdinalDirection::East,
            exit_location: AirLocation(19, 10, 7),
            exit_direction: OrdinalDirection::East,
        }],
        beacons: vec![
            Beacon {
                index: 1,
                location: GroundLocation(4, 4),
            },
            Beacon {
                index: 2,
                location: GroundLocation(8, 8),
            },
        ],
        airports: vec![],
        path_markers: vec![],
    }
}

fn test_plane() -> Plane {
    Plane {
        location: Location::Flight(AirLocation(5, 5, 7)),
        destination: Destination::Exit(test_map().exits[0]),
        target_flight_level: 7,
        callsign: 'r',
        is_jet: true,
        ticks_active: 0,
        target_direction: OrdinalDirection::East,
        current_direction: OrdinalDirection::East,
        show: Visibility::Marked,
        command: None,
    }
}

fn alt_to(v: u16) -> CompleteCommandSegment {
    CompleteCommandSegment::Altitude(CompleteAltitude::To(v))
}

fn turn_north() -> CompleteCommandSegment {
    CompleteCommandSegment::Turn(CompleteTurn::ToHeading(OrdinalDirection::North))
}

fn at_beacon(n: u16, tail: CompleteCommandSegment) -> CompleteCommandSegment {
    CompleteCommandSegment::At(CompleteAt {
        tail: Box::new(tail),
        poi: CompletePointOfInterest::Beacon(n),
    })
}

#[test]
fn altitude_directives_set_and_adjust_the_target() {
    let map = test_map();
    let mut p = test_plane();
    assert!(p.exec(alt_to(9), &map));
    assert_eq!(p.target_flight_level, 9);
    assert!(p.exec(
        CompleteCommandSegment::Altitude(CompleteAltitude::Plus(3)),
        &map
    ));
    assert_eq!(p.target_flight_level, 12);
    assert!(p.exec(
        CompleteCommandSegment::Altitude(CompleteAltitude::Minus(5)),
        &map
    ));
    assert_eq!(p.target_flight_level, 7);
}

#[test]
fn relative_descent_clamps_at_zero() {
    let map = test_map();
    let mut p = test_plane();
    p.target_flight_level = 2;
    assert!(p.exec(
        CompleteCommandSegment::Altitude(CompleteAltitude::Minus(5)),
        &map
    ));
    assert_eq!(p.target_flight_level, 0);
}

#[test]
fn visibility_applies_immediately() {
    let map = test_map();
    let mut p = test_plane();
    assert!(p.exec(
        CompleteCommandSegment::SetVisibility(SetVisibility::Ignore),
        &map
    ));
    assert_eq!(p.show, Visibility::Ignored);
    assert_eq!(p.command, None);
}

#[test]
fn circle_rearms_itself_and_turn_clears_it() {
    let map = test_map();
    let mut p = test_plane();
    let circle = CompleteCommandSegment::Circle(airtower::command::CompleteCircle::Clockwise);
    assert!(p.exec(circle.duplicate(), &map));
    // East rotated a quarter turn clockwise is South.
    assert_eq!(p.target_direction, OrdinalDirection::South);
    assert_eq!(p.command, Some(circle));
    // A turn overrides the standing circle.
    assert!(p.exec(turn_north(), &map));
    assert_eq!(p.target_direction, OrdinalDirection::North);
    assert_eq!(p.command, None);
}

#[test]
fn gate_persists_until_the_beacon_is_reached() {
    let map = test_map();
    let mut p = test_plane();
    let gate = at_beacon(2, turn_north());
    // Not over beacon 2: the whole gate re-arms, nothing else moves.
    assert!(!p.exec(gate.duplicate(), &map));
    assert_eq!(p.command, Some(gate.duplicate()));
    assert_eq!(p.target_direction, OrdinalDirection::East);
    // Re-evaluations on later ticks leave it standing.
    for _ in 0..3 {
        let standing = p.command.as_ref().unwrap().duplicate();
        p.exec(standing, &map);
        assert_eq!(p.command, Some(gate.duplicate()));
        assert_eq!(p.target_direction, OrdinalDirection::East);
    }
    // On the evaluation where the entity stands over beacon 2 the
    // tail runs and the standing command clears.
    p.location = Location::Flight(AirLocation(8, 8, 7));
    let standing = p.command.take().unwrap();
    assert!(p.exec(standing, &map));
    assert_eq!(p.target_direction, OrdinalDirection::North);
    assert_eq!(p.command, None);
}

#[test]
fn gate_over_the_wrong_beacon_number_stays_armed() {
    let map = test_map();
    let mut p = test_plane();
    p.location = Location::Flight(AirLocation(4, 4, 7));
    let gate = at_beacon(2, turn_north());
    assert!(!p.exec(gate.duplicate(), &map));
    assert_eq!(p.command, Some(gate));
}

#[test]
fn delay_applies_its_tail_on_the_fourth_evaluation() {
    let map = test_map();
    let mut p = test_plane();
    let delayed = CompleteCommandSegment::In(CompleteIn {
        tail: Box::new(CompleteCommandSegment::SetVisibility(SetVisibility::Ignore)),
        time: 3,
    });
    // Dispatch: first evaluation decrements.
    assert!(p.exec(delayed, &map));
    for expect in [2u16, 1] {
        match p.command.as_ref().unwrap() {
            CompleteCommandSegment::In(i) => assert_eq!(i.time, expect),
            other => panic!("expected a delay, got {:?}", other),
        }
        assert_eq!(p.show, Visibility::Marked);
        let standing = p.command.as_ref().unwrap().duplicate();
        p.exec(standing, &map);
    }
    match p.command.as_ref().unwrap() {
        CompleteCommandSegment::In(i) => assert_eq!(i.time, 0),
        other => panic!("expected a delay, got {:?}", other),
    }
    assert_eq!(p.show, Visibility::Marked);
    // Fourth evaluation: the countdown is spent, the tail applies.
    let standing = p.command.take().unwrap();
    assert!(p.exec(standing, &map));
    assert_eq!(p.show, Visibility::Ignored);
    assert_eq!(p.command, None);
}

#[test]
fn sequence_runs_left_then_right() {
    let map = test_map();
    let mut p = test_plane();
    let both = CompleteCommandSegment::And(CompleteAnd {
        left: Box::new(alt_to(9)),
        right: Box::new(turn_north()),
    });
    assert!(p.exec(both, &map));
    assert_eq!(p.target_flight_level, 9);
    assert_eq!(p.target_direction, OrdinalDirection::North);
}

#[test]
fn sequence_rearms_whole_when_left_is_gated() {
    let map = test_map();
    let mut p = test_plane();
    let both = CompleteCommandSegment::And(CompleteAnd {
        left: Box::new(at_beacon(2, alt_to(9))),
        right: Box::new(turn_north()),
    });
    assert!(!p.exec(both.duplicate(), &map));
    assert_eq!(p.command, Some(both));
    assert_eq!(p.target_flight_level, 7);
    assert_eq!(p.target_direction, OrdinalDirection::East);
}

#[test]
fn tick_moves_and_levels_toward_targets() {
    let map = test_map();
    let mut p = test_plane();
    p.target_flight_level = 9;
    p.tick(&map);
    assert_eq!(p.location, Location::Flight(AirLocation(6, 5, 8)));
    assert_eq!(p.ticks_active, 1);
}

#[test]
fn prop_plane_moves_every_other_tick() {
    let map = test_map();
    let mut p = test_plane();
    p.is_jet = false;
    p.tick(&map);
    assert_eq!(p.location, Location::Flight(AirLocation(6, 5, 7)));
    p.tick(&map);
    // Odd tick: a propeller plane holds still.
    assert_eq!(p.location, Location::Flight(AirLocation(6, 5, 7)));
    p.tick(&map);
    assert_eq!(p.location, Location::Flight(AirLocation(7, 5, 7)));
}

#[test]
fn tick_turns_one_step_toward_the_target_heading() {
    let map = test_map();
    let mut p = test_plane();
    p.target_direction = OrdinalDirection::West;
    // East to West is a half turn: two ticks of quarter turns
    // (clockwise), then direct.
    p.tick(&map);
    assert_eq!(p.current_direction, OrdinalDirection::South);
    p.tick(&map);
    assert_eq!(p.current_direction, OrdinalDirection::West);
}

#[test]
fn grounded_plane_launches_when_given_altitude() {
    let map = test_map();
    let mut p = test_plane();
    let port = airtower::map_objects::Airport {
        location: GroundLocation(3, 3),
        launch_direction: CardinalDirection::North,
        index: 0,
    };
    p.location = Location::Airport(port);
    p.target_flight_level = 0;
    p.tick(&map);
    assert_eq!(p.location, Location::Airport(port));
    p.target_flight_level = 4;
    p.tick(&map);
    assert_eq!(p.location, Location::Flight(AirLocation(3, 2, 1)));
}

#[test]
fn rotate_toward_matches_the_compass_table() {
    assert_eq!(North.rotate_toward(East), East);
    assert_eq!(North.rotate_toward(West), West);
    assert_eq!(North.rotate_toward(SouthEast), East);
    assert_eq!(North.rotate_toward(South), East);
    assert_eq!(South.rotate_toward(North), West);
    assert_eq!(NorthWest.rotate_toward(SouthEast), NorthEast);
    assert_eq!(West.rotate_toward(West), West);
}

#[test]
fn rotated_90_in_both_senses() {
    assert_eq!(North.rotated_90(CircleDirection::Clockwise), East);
    assert_eq!(North.rotated_90(CircleDirection::CounterClockwise), West);
    assert_eq!(SouthWest.rotated_90(CircleDirection::Clockwise), NorthWest);
}

#[test]
fn degrees_and_offsets() {
    assert_eq!(North.to_deg(), 0);
    assert_eq!(SouthWest.to_deg(), 225);
    assert_eq!(North.as_offset(), (0, -1));
    assert_eq!(SouthEast.as_offset(), (1, 1));
}

#[test]
fn narrowing_to_cardinal_directions() {
    assert_eq!(North.narrow(), Some(CardinalDirection::North));
    assert_eq!(West.narrow(), Some(CardinalDirection::West));
    assert_eq!(NorthEast.narrow(), None);
    assert_eq!(SouthWest.narrow(), None);
}

#[test]
fn destination_accessors() {
    let map = test_map();
    let exit = Destination::Exit(map.exits[0]);
    assert_eq!(exit.entry(), Location::Flight(AirLocation(0, 10, 7)));
    assert_eq!(exit.exit(), Location::Flight(AirLocation(19, 10, 7)));
    assert_eq!(exit.entry_dir(), OrdinalDirection::East);
    assert_eq!(exit.exit_dir(), OrdinalDirection::East);
    assert_eq!(exit.entry_height(), 7);
    assert_eq!(exit.exit_height(), 7);
    let port = Destination::Airport(airtower::map_objects::Airport {
        location: GroundLocation(3, 3),
        launch_direction: CardinalDirection::East,
        index: 1,
    });
    assert_eq!(port.entry_height(), 0);
    assert_eq!(port.entry_dir(), OrdinalDirection::East);
}
