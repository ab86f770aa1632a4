use pixel_canvas::canvas::{Canvas, CANVAS_HEIGHT, CANVAS_WIDTH, STARTING_COLOR};
use pixel_canvas::codec::ErrorCode;
use pixel_canvas::dispatch::{parse_message, ResponseType};
use pixel_canvas::stats::StatsTracker;

fn fresh() -> (Canvas, StatsTracker) {
    (Canvas::new(CANVAS_WIDTH, CANVAS_HEIGHT), StatsTracker::new())
}

#[test]
fn empty_payload_is_invalid_and_still_recorded() {
    let (mut canvas, mut tracker) = fresh();
    let r = parse_message(&mut canvas, &mut tracker, 0, 1, &[]);
    assert_eq!(r, ResponseType::Error(ErrorCode::InvalidMessageType));
    // an error reply counts toward the request rate like any other frame
    assert_eq!(tracker.events, vec![(1, 1)]);
    assert!(canvas.pixels.iter().all(|&p| p == STARTING_COLOR));
}

#[test]
fn unknown_tag_is_invalid_but_recorded() {
    let (mut canvas, mut tracker) = fresh();
    let r = parse_message(&mut canvas, &mut tracker, 0, 1, &[9, 0, 0]);
    assert_eq!(r, ResponseType::Error(ErrorCode::InvalidMessageType));
    assert_eq!(tracker.events, vec![(1, 1)]);
}

#[test]
fn truncated_set_pixel_is_invalid() {
    let (mut canvas, mut tracker) = fresh();
    let r = parse_message(&mut canvas, &mut tracker, 0, 1, &[1, 0, 0, 0, 0, 0]);
    assert_eq!(r, ResponseType::Error(ErrorCode::InvalidMessageType));
    assert!(canvas.pixels.iter().all(|&p| p == STARTING_COLOR));
}

#[test]
fn truncated_get_pixel_is_invalid() {
    let (mut canvas, mut tracker) = fresh();
    let r = parse_message(&mut canvas, &mut tracker, 0, 1, &[2, 0, 0]);
    assert_eq!(r, ResponseType::Error(ErrorCode::InvalidMessageType));
}

#[test]
fn set_pixel_writes_and_asks_for_a_broadcast() {
    let (mut canvas, mut tracker) = fresh();
    // x = 3, y = 5, skip-sender set, color 0x123456
    let frame = [1u8, 0x10, 0x0C, 0x05, 0x12, 0x34, 0x56];
    let r = parse_message(&mut canvas, &mut tracker, 0, 1, &frame);
    assert_eq!(
        r,
        ResponseType::Broadcast { x: 3, y: 5, color: 0x123456, skip_sender: true }
    );
    assert_eq!(canvas.get_pixel(3, 5), Some(0x123456));
    assert_eq!(tracker.events, vec![(1, 1)]);
}

#[test]
fn set_pixel_without_flag_broadcasts_to_everyone() {
    let (mut canvas, mut tracker) = fresh();
    let frame = [1u8, 0x00, 0x0C, 0x05, 0xAB, 0xCD, 0xEF];
    let r = parse_message(&mut canvas, &mut tracker, 0, 1, &frame);
    assert_eq!(
        r,
        ResponseType::Broadcast { x: 3, y: 5, color: 0xABCDEF, skip_sender: false }
    );
}

#[test]
fn get_pixel_returns_the_stored_color() {
    let (mut canvas, mut tracker) = fresh();
    canvas.set_pixel(3, 5, 0x654321);
    let frame = [2u8, 0x00, 0x0C, 0x05];
    let r = parse_message(&mut canvas, &mut tracker, 0, 1, &frame);
    assert_eq!(r, ResponseType::PixelColor(0x654321));
}

#[test]
fn get_pixel_out_of_range_is_out_of_bounds_error() {
    // the canvas is 1024 x 1024 and every 10-bit coordinate is inside it,
    // so exercise the boundary on a smaller grid
    let mut canvas = Canvas::new(16, 16);
    let mut tracker = StatsTracker::new();
    // x = 16, y = 0 lies outside a 16 x 16 grid: word = 16 << 10 = 0x4000
    let frame = [2u8, 0x00, 0x40, 0x00];
    let r = parse_message(&mut canvas, &mut tracker, 0, 1, &frame);
    assert_eq!(r, ResponseType::Error(ErrorCode::OutOfBounds));
}

#[test]
fn set_pixel_out_of_range_is_silently_dropped() {
    let mut canvas = Canvas::new(16, 16);
    let mut tracker = StatsTracker::new();
    let before = canvas.pixels.clone();
    // x = 16 on a 16-wide grid
    let frame = [1u8, 0x00, 0x40, 0x00, 0x12, 0x34, 0x56];
    let r = parse_message(&mut canvas, &mut tracker, 0, 1, &frame);
    assert!(matches!(r, ResponseType::Broadcast { .. }));
    assert_eq!(canvas.pixels, before);
}

#[test]
fn get_all_pixels_on_fresh_canvas_is_all_starting_color() {
    let (mut canvas, mut tracker) = fresh();
    let r = parse_message(&mut canvas, &mut tracker, 0, 1, &[3]);
    match r {
        ResponseType::GetAllPixels(pixels) => {
            assert_eq!(pixels.len(), CANVAS_WIDTH * CANVAS_HEIGHT);
            assert!(pixels.iter().all(|&p| p == STARTING_COLOR));
        }
        other => panic!("expected GetAllPixels, got {:?}", other),
    }
}

#[test]
fn get_stats_reports_count_and_pruned_window_sum() {
    let (mut canvas, mut tracker) = fresh();
    tracker.record(0, 3);
    tracker.record(5, 2);
    // at t = 11 the t = 0 entry has left the window; this request itself
    // is recorded before the window is evaluated
    let r = parse_message(&mut canvas, &mut tracker, 4, 11, &[4]);
    assert_eq!(r, ResponseType::Stats { client_count: 4, window_total: 3 });
    assert_eq!(tracker.events, vec![(5, 2), (11, 1)]);
}

#[test]
fn every_valid_request_is_recorded_before_handling() {
    let (mut canvas, mut tracker) = fresh();
    parse_message(&mut canvas, &mut tracker, 0, 1, &[3]);
    parse_message(&mut canvas, &mut tracker, 0, 2, &[2, 0, 0, 0]);
    parse_message(&mut canvas, &mut tracker, 0, 3, &[1, 0, 0, 0, 0, 0, 0]);
    assert_eq!(tracker.events, vec![(1, 1), (2, 1), (3, 1)]);
}
