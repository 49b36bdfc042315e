use seat_config::{arrange_outputs, current_status, status_text, OutputState, Placement, Position, WallMinute};

#[test]
fn two_connected_outputs_sit_side_by_side() {
    let left = OutputState { connected: true, width: 1920 };
    let right = OutputState { connected: true, width: 2560 };
    assert_eq!(
        arrange_outputs(left, right),
        Some(Placement { left: Position { x: 0, y: 0 }, right: Position { x: 1920, y: 0 } })
    );
}

#[test]
fn disconnected_output_is_not_placed() {
    let on = OutputState { connected: true, width: 1920 };
    let off = OutputState { connected: false, width: 1920 };
    assert_eq!(arrange_outputs(on, off), None);
    assert_eq!(arrange_outputs(off, on), None);
    assert_eq!(arrange_outputs(off, off), None);
}

#[test]
fn status_text_is_padded_minute() {
    let t = WallMinute { year: 2024, month: 3, day: 5, hour: 9, minute: 7 };
    assert_eq!(status_text(&t), "2024-03-05 09:07");
}

#[test]
fn status_text_pads_short_year_and_ends_of_ranges() {
    let t = WallMinute { year: 987, month: 12, day: 31, hour: 23, minute: 59 };
    assert_eq!(status_text(&t), "0987-12-31 23:59");
    let t = WallMinute { year: 2024, month: 2, day: 29, hour: 0, minute: 0 };
    assert_eq!(status_text(&t), "2024-02-29 00:00");
}

#[test]
fn current_status_matches_its_minute() {
    let (now, text) = current_status();
    assert_eq!(text, status_text(&now));
    assert_eq!(text.len(), 16);
}
