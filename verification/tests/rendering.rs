use airtower::command::{
    Command, CommandSegment, CompleteAltitude, CompleteAt, CompleteCommandSegment, CompleteIn,
    CompletePointOfInterest, CompleteRef, CompleteTurn, SetVisibility,
};
use airtower::direction::{CardinalDirection, OrdinalDirection};
use airtower::location::GroundLocation;
use airtower::map_objects::{Airport, Beacon, Exit, GridRenderable, RenderGrid};
use airtower::text::{eq_ignore_case, u16_to_string, u32_to_string};
use airtower::GameStatus;

fn build(text: &str) -> CommandSegment {
    let mut seg = CommandSegment::Empty;
    for c in text.chars() {
        seg.input(c);
    }
    seg
}

#[test]
fn numbers_render_in_decimal() {
    assert_eq!(u16_to_string(0), "0");
    assert_eq!(u16_to_string(7), "7");
    assert_eq!(u16_to_string(90), "90");
    assert_eq!(u16_to_string(65535), "65535");
    assert_eq!(u32_to_string(100000), "100000");
}

#[test]
fn partial_trees_always_render() {
    assert_eq!(build("").as_text(), "");
    assert_eq!(build("a").as_text(), "altitude:");
    assert_eq!(build("a5").as_text(), "altitude: 5000ft");
    assert_eq!(build("ac").as_text(), "altitude: climb");
    assert_eq!(build("ad2").as_text(), "altitude: descend 2000ft");
    assert_eq!(build("t").as_text(), "turn");
    assert_eq!(build("tw").as_text(), "turn to 0");
    assert_eq!(build("t2").as_text(), "turn to 180");
    assert_eq!(build("cq").as_text(), "circle counter-clockwise");
    assert_eq!(build("m").as_text(), "mark");
    assert_eq!(build("%4").as_text(), "\x1b[34m%4\x1b[39m");
    assert_eq!(
        build("a5a2").as_text(),
        "altitude: 5000ft at \x1b[33m*2\x1b[39m"
    );
    assert_eq!(build("a5ab").as_text(), "altitude: 5000ft at \x1b[33m*\x1b[39m");
    assert_eq!(
        build("u#4").as_text(),
        "unmark in \x1b[36m#4\x1b[39m ticks"
    );
    assert_eq!(build("a5&tw").as_text(), "altitude: 5000ft & turn to 0");
}

#[test]
fn complete_trees_render_short_form() {
    let alt = CompleteCommandSegment::Altitude(CompleteAltitude::To(5));
    assert_eq!(alt.render(false), "fl=5");
    assert_eq!(
        CompleteCommandSegment::Altitude(CompleteAltitude::Plus(2)).render(false),
        "fl+2"
    );
    assert_eq!(
        CompleteCommandSegment::Altitude(CompleteAltitude::Minus(2)).render(false),
        "fl-2"
    );
    let turn = CompleteCommandSegment::Turn(CompleteTurn::ToHeading(OrdinalDirection::East));
    assert_eq!(turn.render(false), "90");
    let gate = CompleteCommandSegment::At(CompleteAt {
        tail: Box::new(alt.duplicate()),
        poi: CompletePointOfInterest::Beacon(2),
    });
    assert_eq!(gate.render(false), "fl=5@*2");
    assert_eq!(gate.render(true), "fl=5@\x1b[33m*2\x1b[39m");
    let delayed = CompleteCommandSegment::In(CompleteIn {
        tail: Box::new(CompleteCommandSegment::SetVisibility(SetVisibility::Ignore)),
        time: 3,
    });
    assert_eq!(delayed.render(false), "ignore#3");
    assert_eq!(delayed.render(true), "ignore\x1b[36m#3\x1b[39m");
    assert_eq!(
        CompleteCommandSegment::Ref(CompleteRef(7)).render(false),
        "%7"
    );
    assert_eq!(CompleteCommandSegment::Empty.render(false), "[]");
}

#[test]
fn whole_command_text_shows_target_then_body() {
    let mut cmd = Command::new();
    for c in "ra5".chars() {
        cmd.input(c);
    }
    assert_eq!(cmd.as_text(), "\x1b[32mr\x1b[39m: altitude: 5000ft");
    let target = cmd.to_complete().unwrap().target;
    assert_eq!(target.as_text(), "\x1b[32mr\x1b[39m: ");
}

#[test]
fn map_object_display_strings() {
    let port = Airport {
        location: GroundLocation(3, 3),
        launch_direction: CardinalDirection::North,
        index: 4,
    };
    assert_eq!(port.to_display_string(false), "^4");
    assert_eq!(port.to_display_string(true), "\x1b[34m^4\x1b[39m");
    let beacon = Beacon {
        index: 12,
        location: GroundLocation(8, 8),
    };
    assert_eq!(beacon.to_display_string(false), "*12");
    assert_eq!(beacon.to_display_string(true), "\x1b[33m*12\x1b[39m");
    let exit = Exit {
        index: 3,
        entry_location: airtower::location::AirLocation(0, 1, 7),
        entry_direction: OrdinalDirection::East,
        exit_location: airtower::location::AirLocation(9, 1, 7),
        exit_direction: OrdinalDirection::East,
    };
    assert_eq!(exit.to_display_string(false, true), "E3");
    assert_eq!(exit.to_display_string(false, false), "3 ");
    assert_eq!(exit.to_display_string(true, true), "\x1b[31mE3\x1b[0m");
}

#[test]
fn grid_renders_row_by_row() {
    let cmd = Command::new();
    let mut grid = RenderGrid::new(2, 2, &cmd);
    let beacon = Beacon {
        index: 5,
        location: GroundLocation(1, 0),
    };
    grid.add(&beacon);
    assert_eq!(grid.get(0, 0), "\x1b[2m. \x1b[0m");
    assert_eq!(grid.get(1, 0), "\x1b[33m*5\x1b[39m\x1b[24m");
    let dot = "\x1b[2m. \x1b[0m";
    let sep = "\x1b[4D\x1b[B";
    let expected = format!(
        "{}{}{}{}{}{}",
        dot, "\x1b[33m*5\x1b[39m\x1b[24m", sep, dot, dot, sep
    );
    assert_eq!(grid.render(), expected);
}

#[test]
fn addressed_beacon_is_emphasized() {
    let mut cmd = Command::new();
    for c in "ra5a2".chars() {
        cmd.input(c);
    }
    let beacon = Beacon {
        index: 2,
        location: GroundLocation(1, 0),
    };
    let other = Beacon {
        index: 3,
        location: GroundLocation(0, 0),
    };
    assert_eq!(
        beacon.render(&cmd),
        "\x1b[4m\x1b[33m*2\x1b[39m\x1b[24m"
    );
    assert_eq!(other.render(&cmd), "\x1b[33m*3\x1b[39m\x1b[24m");
}

#[test]
fn game_status_messages() {
    assert_eq!(
        GameStatus::PlanesCrashed('a', 'b').message(),
        "Plane a crashed into plane b."
    );
    assert_eq!(
        GameStatus::PlaneExited('q').message(),
        "Plane q exited improperly."
    );
    assert_eq!(
        GameStatus::PlaneFailedLanding('Z').message(),
        "Plane Z landed improperly."
    );
}

#[test]
fn case_insensitive_letter_match() {
    assert!(eq_ignore_case('a', 'A'));
    assert!(eq_ignore_case('Q', 'q'));
    assert!(!eq_ignore_case('a', 'b'));
    assert!(eq_ignore_case('7', '7'));
}
