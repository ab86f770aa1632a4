use pixel_canvas::canvas::{Canvas, CANVAS_HEIGHT, CANVAS_WIDTH, STARTING_COLOR};
use pixel_canvas::snapshot::{
    create_all_pixels_response, decode_snapshot, encode_snapshot, load_canvas,
};

#[test]
fn encode_snapshot_exact_bytes() {
    let pixels = vec![0x123456u32, 0xABCDEFu32];
    let bytes = encode_snapshot(&pixels);
    assert_eq!(bytes, vec![0x12, 0x34, 0x56, 0xAB, 0xCD, 0xEF]);
}

#[test]
fn snapshot_round_trip_small_grid() {
    let mut c = Canvas::new(4, 3);
    c.set_pixel(0, 0, 0x000001);
    c.set_pixel(3, 2, 0xFEDCBA);
    c.set_pixel(2, 1, 0x0F0F0F);
    let bytes = encode_snapshot(&c.pixels);
    assert_eq!(bytes.len(), 3 * 12);
    let loaded = decode_snapshot(&bytes, 12);
    assert_eq!(loaded, c.pixels);
}

#[test]
fn snapshot_round_trip_all_default_full_canvas() {
    let c = Canvas::new(CANVAS_WIDTH, CANVAS_HEIGHT);
    let bytes = encode_snapshot(&c.pixels);
    assert_eq!(bytes.len(), 3 * CANVAS_WIDTH * CANVAS_HEIGHT);
    let loaded = decode_snapshot(&bytes, CANVAS_WIDTH * CANVAS_HEIGHT);
    assert_eq!(loaded, c.pixels);
}

#[test]
fn snapshot_round_trip_patterned_grid() {
    // a deterministic pseudo-random fill over every byte value
    let mut pixels: Vec<u32> = Vec::new();
    let mut state = 0x1234_5678u32;
    for _ in 0..256 {
        state = state.wrapping_mul(1664525).wrapping_add(1013904223);
        pixels.push(state & 0xFF_FFFF);
    }
    let bytes = encode_snapshot(&pixels);
    let loaded = decode_snapshot(&bytes, 256);
    assert_eq!(loaded, pixels);
}

#[test]
fn decode_short_stream_leaves_tail_at_starting_color() {
    // 2 complete pixels and one dangling byte, loaded into 4 cells
    let bytes = vec![1, 2, 3, 4, 5, 6, 7];
    let loaded = decode_snapshot(&bytes, 4);
    assert_eq!(loaded, vec![0x010203, 0x040506, STARTING_COLOR, STARTING_COLOR]);
}

#[test]
fn decode_empty_stream_is_all_starting_color() {
    let loaded = decode_snapshot(&[], 3);
    assert_eq!(loaded, vec![STARTING_COLOR; 3]);
}

#[test]
fn load_canvas_restores_saved_pixels() {
    let mut c = Canvas::new(CANVAS_WIDTH, CANVAS_HEIGHT);
    c.set_pixel(0, 0, 0x111111);
    c.set_pixel(1023, 1023, 0x222222);
    c.set_pixel(500, 700, 0x345678);
    let bytes = encode_snapshot(&c.pixels);
    let loaded = load_canvas(&bytes);
    assert_eq!(loaded.width, CANVAS_WIDTH);
    assert_eq!(loaded.height, CANVAS_HEIGHT);
    assert_eq!(loaded.pixels, c.pixels);
}

#[test]
fn load_canvas_from_empty_file_is_fresh() {
    let loaded = load_canvas(&[]);
    assert_eq!(loaded.pixels.len(), CANVAS_WIDTH * CANVAS_HEIGHT);
    assert!(loaded.pixels.iter().all(|&p| p == STARTING_COLOR));
}

#[test]
fn all_pixels_response_is_tag_then_rgb_stream() {
    let pixels = vec![0x010203u32, 0xA0B0C0u32];
    let msg = create_all_pixels_response(&pixels);
    assert_eq!(msg, vec![12, 0x01, 0x02, 0x03, 0xA0, 0xB0, 0xC0]);
    assert_eq!(msg.len(), 1 + 3 * pixels.len());
}
