use airtower::command::{
    Altitude, Circle, Command, CommandSegment, CommandTarget, CompleteAltitude,
    CompleteCommandSegment, CompleteCommandTarget, InputHandling, PointOfInterest, Ref,
    SetVisibility, Turn, ERASE,
};
use airtower::digit_as_num;
use airtower::direction::OrdinalDirection;

fn feed(seg: &mut CommandSegment, text: &str) {
    for c in text.chars() {
        seg.input(c);
    }
}

fn build(text: &str) -> CommandSegment {
    let mut seg = CommandSegment::Empty;
    feed(&mut seg, text);
    seg
}

#[test]
fn empty_segment_accepts_fragment_starters() {
    assert_eq!(build("a"), CommandSegment::Altitude(Altitude::Undefined));
    assert_eq!(build("t"), CommandSegment::Turn(Turn::Unset));
    assert_eq!(build("c"), CommandSegment::Circle(Circle::Unset));
    assert_eq!(build("%"), CommandSegment::Ref(Ref(None)));
    assert_eq!(
        build("m"),
        CommandSegment::SetVisibility(SetVisibility::Mark)
    );
    assert_eq!(
        build("u"),
        CommandSegment::SetVisibility(SetVisibility::Unmark)
    );
    assert_eq!(
        build("i"),
        CommandSegment::SetVisibility(SetVisibility::Ignore)
    );
}

#[test]
fn altitude_ladder_builds_and_finalizes() {
    assert_eq!(build("a5"), CommandSegment::Altitude(Altitude::To(5)));
    assert_eq!(
        build("ac3"),
        CommandSegment::Altitude(Altitude::Plus(Some(3)))
    );
    assert_eq!(
        build("ad2"),
        CommandSegment::Altitude(Altitude::Minus(Some(2)))
    );
    assert_eq!(
        build("a5").to_complete(),
        Some(CompleteCommandSegment::Altitude(CompleteAltitude::To(5)))
    );
    assert_eq!(build("ac").to_complete(), None);
}

#[test]
fn turn_accepts_letter_and_keypad_layouts() {
    let by_letter = build("tw");
    let by_pad = build("t8");
    assert_eq!(
        by_letter,
        CommandSegment::Turn(Turn::ToHeading(OrdinalDirection::North))
    );
    assert_eq!(by_letter, by_pad);
    assert_eq!(
        build("t1"),
        CommandSegment::Turn(Turn::ToHeading(OrdinalDirection::SouthWest))
    );
    assert_eq!(
        build("tq"),
        CommandSegment::Turn(Turn::ToHeading(OrdinalDirection::NorthWest))
    );
}

#[test]
fn circle_keys_pick_the_sense() {
    assert_eq!(build("ce"), CommandSegment::Circle(Circle::Clockwise));
    assert_eq!(build("cq"), CommandSegment::Circle(Circle::CounterClockwise));
    // An unset circle is an unset leaf: the tree does not finalize.
    assert_eq!(build("c").to_complete(), None);
}

#[test]
fn gate_wraps_a_complete_tree() {
    let seg = build("a5a2");
    match &seg {
        CommandSegment::At(at) => {
            assert_eq!(*at.tail, build("a5"));
            assert_eq!(at.poi, Some(PointOfInterest::Default(2)));
        }
        other => panic!("expected a gate, got {:?}", other),
    }
    assert!(seg.to_complete().is_some());
}

#[test]
fn beacon_prefix_and_bare_digit_finalize_alike() {
    let bare = build("a5a2").to_complete().unwrap();
    let prefixed = build("a5ab2").to_complete().unwrap();
    assert_eq!(bare, prefixed);
}

#[test]
fn sequence_routes_input_to_the_right() {
    let seg = build("a5&tw");
    match &seg {
        CommandSegment::And(and) => {
            assert_eq!(*and.left, build("a5"));
            assert_eq!(*and.right, build("tw"));
        }
        other => panic!("expected a sequence, got {:?}", other),
    }
}

#[test]
fn delay_takes_a_tick_count() {
    let seg = build("u#4");
    assert!(seg.to_complete().is_some());
    assert_eq!(build("u#").to_complete(), None);
}

#[test]
fn unfinalizable_tree_cannot_be_wrapped() {
    // The "and" trigger while the altitude still waits for its digit
    // must stay unhandled and change nothing.
    let mut seg = build("ac");
    let before = seg.duplicate();
    let r = seg.input('&');
    assert_eq!(r, InputHandling::Unhandled);
    assert_eq!(seg, before);
    // The same keystroke on a finalized altitude builds the sequence.
    let mut done = build("ac3");
    assert_eq!(done.input('&'), InputHandling::Handled);
    assert!(matches!(done, CommandSegment::And(_)));
}

#[test]
fn erase_walks_each_ladder_back_to_empty() {
    for text in [
        "a", "a5", "ac", "ac3", "t", "tw", "c", "ce", "m", "%", "%7", "a5a2", "a5ab", "a5ab2",
        "a5&", "a5&tw", "u#4", "a5a2&ce",
    ] {
        let mut seg = build(text);
        let mut erases: usize = 0;
        loop {
            match seg.input(ERASE) {
                InputHandling::Handled => erases += 1,
                InputHandling::Back => break,
                InputHandling::Unhandled => panic!("erase unhandled on {:?}", text),
            }
            assert!(erases <= 64, "no bottom reached for {:?}", text);
        }
        assert_eq!(seg, CommandSegment::Empty, "after erasing {:?}", text);
        assert_eq!(erases, text.chars().count(), "ladder height of {:?}", text);
    }
}

#[test]
fn erase_unwraps_a_gate_to_its_tail() {
    let mut seg = build("a5a");
    assert_eq!(seg.input(ERASE), InputHandling::Handled);
    assert_eq!(seg, build("a5"));
}

#[test]
fn delay_count_can_be_erased_and_retyped() {
    let mut seg = build("u#4");
    assert_eq!(seg.input(ERASE), InputHandling::Handled);
    assert_eq!(seg.to_complete(), None);
    assert_eq!(seg.input('6'), InputHandling::Handled);
    assert_eq!(seg, build("u#6"));
}

#[test]
fn invalid_keystroke_changes_nothing() {
    let mut seg = build("tw");
    let before = seg.duplicate();
    assert_eq!(seg.input('!'), InputHandling::Unhandled);
    assert_eq!(seg, before);
}

#[test]
fn target_consumes_leading_input() {
    let mut cmd = Command::new();
    assert!(cmd.is_empty());
    cmd.input('r');
    assert_eq!(cmd.target, CommandTarget::Plane('r'));
    assert!(!cmd.is_empty());
    cmd.input('t');
    cmd.input('w');
    let complete = cmd.to_complete().unwrap();
    assert_eq!(complete.target, CompleteCommandTarget::Plane('r'));
    assert!(matches!(complete.head, CompleteCommandSegment::Turn(_)));
}

#[test]
fn slot_target_takes_a_number() {
    let mut cmd = Command::new();
    cmd.input('%');
    assert_eq!(cmd.target, CommandTarget::Slot(None));
    cmd.input('3');
    assert_eq!(cmd.target, CommandTarget::Slot(Some(3)));
    assert_eq!(cmd.to_complete(), None);
    cmd.input('u');
    let complete = cmd.to_complete().unwrap();
    assert_eq!(complete.target, CompleteCommandTarget::Slot(3));
}

#[test]
fn erasing_past_the_body_erodes_the_target() {
    let mut cmd = Command::new();
    cmd.input('r');
    cmd.input('t');
    cmd.input(ERASE);
    assert_eq!(cmd.head, CommandSegment::Empty);
    assert_eq!(cmd.target, CommandTarget::Plane('r'));
    cmd.input(ERASE);
    assert!(cmd.is_empty());
}

#[test]
fn reset_clears_everything() {
    let mut cmd = Command::new();
    cmd.input('r');
    cmd.input('a');
    cmd.input('5');
    cmd.reset();
    assert!(cmd.is_empty());
    assert_eq!(cmd.head, CommandSegment::Empty);
}

#[test]
fn replaying_a_sequence_is_deterministic() {
    let keys = "ra5a2&tw";
    let mut first = Command::new();
    let mut second = Command::new();
    for c in keys.chars() {
        first.input(c);
    }
    for c in keys.chars() {
        second.input(c);
    }
    assert_eq!(first, second);
    assert_eq!(first.to_complete(), second.to_complete());
    assert!(first.to_complete().is_some());
}

#[test]
fn current_segment_follows_the_sequence_focus() {
    let cmd = build("a5&tw");
    assert_eq!(cmd.current_segment(), build("tw"));
    assert_eq!(build("a5a2").current_segment(), build("a5a2"));
}

#[test]
fn target_reports_the_focused_gate_beacon() {
    assert_eq!(build("a5a2").target(), Some(PointOfInterest::Default(2)));
    assert_eq!(build("a5").target(), None);
}

#[test]
fn digit_values() {
    assert_eq!(digit_as_num('0'), 0);
    assert_eq!(digit_as_num('5'), 5);
    assert_eq!(digit_as_num('9'), 9);
}
