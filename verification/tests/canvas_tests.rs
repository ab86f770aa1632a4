use pixel_canvas::canvas::{Canvas, CANVAS_HEIGHT, CANVAS_WIDTH, STARTING_COLOR};

#[test]
fn new_canvas_is_all_starting_color() {
    let c = Canvas::new(CANVAS_WIDTH, CANVAS_HEIGHT);
    assert_eq!(c.width, CANVAS_WIDTH);
    assert_eq!(c.height, CANVAS_HEIGHT);
    assert_eq!(c.pixels.len(), CANVAS_WIDTH * CANVAS_HEIGHT);
    assert!(c.pixels.iter().all(|&p| p == STARTING_COLOR));
}

#[test]
fn set_then_get_pixel() {
    let mut c = Canvas::new(16, 8);
    c.set_pixel(3, 5, 0x123456);
    assert_eq!(c.get_pixel(3, 5), Some(0x123456));
    assert_eq!(c.get_pixel(0, 0), Some(STARTING_COLOR));
}

#[test]
fn set_pixel_masks_color_to_24_bits() {
    let mut c = Canvas::new(4, 4);
    c.set_pixel(1, 1, 0x1FF_FFFF);
    assert_eq!(c.get_pixel(1, 1), Some(0xFF_FFFF));
    c.set_pixel(2, 2, 0xAB12_3456);
    assert_eq!(c.get_pixel(2, 2), Some(0x12_3456));
}

#[test]
fn out_of_bounds_write_is_silent_no_op() {
    let mut c = Canvas::new(4, 4);
    c.set_pixel(0, 0, 0x111111);
    let before = c.pixels.clone();
    c.set_pixel(4, 0, 0x222222);
    c.set_pixel(0, 4, 0x333333);
    c.set_pixel(usize::MAX, usize::MAX, 0x444444);
    assert_eq!(c.pixels, before);
}

#[test]
fn out_of_bounds_read_is_absent() {
    let c = Canvas::new(4, 4);
    assert_eq!(c.get_pixel(4, 0), None);
    assert_eq!(c.get_pixel(0, 4), None);
    assert_eq!(c.get_pixel(1024, 1024), None);
    assert_eq!(c.get_pixel(3, 3), Some(STARTING_COLOR));
}

#[test]
fn write_touches_only_its_own_cell() {
    let mut c = Canvas::new(8, 8);
    c.set_pixel(2, 3, 0x101010);
    c.set_pixel(5, 6, 0x202020);
    for y in 0..8 {
        for x in 0..8 {
            let expected = match (x, y) {
                (2, 3) => 0x101010,
                (5, 6) => 0x202020,
                _ => STARTING_COLOR,
            };
            assert_eq!(c.get_pixel(x, y), Some(expected));
        }
    }
}

#[test]
fn same_pixel_writes_resolve_to_the_later_one() {
    let mut a = Canvas::new(8, 8);
    a.set_pixel(4, 4, 0x111111);
    a.set_pixel(4, 4, 0x222222);
    assert_eq!(a.get_pixel(4, 4), Some(0x222222));

    let mut b = Canvas::new(8, 8);
    b.set_pixel(4, 4, 0x222222);
    b.set_pixel(4, 4, 0x111111);
    assert_eq!(b.get_pixel(4, 4), Some(0x111111));
}

#[test]
fn distinct_pixel_writes_commute() {
    let mut a = Canvas::new(8, 8);
    a.set_pixel(1, 2, 0x111111);
    a.set_pixel(6, 7, 0x222222);

    let mut b = Canvas::new(8, 8);
    b.set_pixel(6, 7, 0x222222);
    b.set_pixel(1, 2, 0x111111);

    assert_eq!(a.pixels, b.pixels);
}

#[test]
fn snapshot_copies_every_pixel() {
    let mut c = Canvas::new(4, 2);
    c.set_pixel(0, 0, 0x010203);
    c.set_pixel(3, 1, 0x0A0B0C);
    let snap = c.snapshot();
    assert_eq!(snap, c.pixels);
    assert_eq!(snap.len(), 8);
    assert_eq!(snap[0], 0x010203);
    assert_eq!(snap[7], 0x0A0B0C);
}
