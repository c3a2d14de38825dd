use raster_canvas::{Canvas, CanvasError, Colour, Effect, Message, Rgb};

fn rgb(r: u8, g: u8, b: u8) -> Rgb {
    Rgb::new(r, g, b)
}

fn filled(w: i32, h: i32, c: Rgb) -> Canvas {
    Canvas::fill(w, h, c).unwrap()
}

#[test]
fn fill_sets_every_pixel_and_length() {
    let c = filled(5, 3, rgb(1, 2, 3));
    assert_eq!(c.data().len(), 5 * 3 * 3);
    assert_eq!(c.width(), 5);
    assert_eq!(c.height(), 3);
    for y in 0..3 {
        for x in 0..5 {
            assert_eq!(c.pixel(x, y), rgb(1, 2, 3));
        }
    }
    assert_eq!(&c.data()[0..6], &[1, 2, 3, 1, 2, 3]);
}

#[test]
fn fill_presets() {
    assert_eq!(Colour::Black.rgb(), rgb(0, 0, 0));
    assert_eq!(Colour::Grey.rgb(), rgb(127, 127, 127));
    assert_eq!(Colour::LightGrey.rgb(), rgb(191, 191, 191));
    assert_eq!(Colour::White.rgb(), rgb(255, 255, 255));
    let c = filled(2, 2, Colour::LightGrey.rgb());
    assert!(c.data().iter().all(|&b| b == 191));
}

#[test]
fn fill_rejects_non_positive_dimensions() {
    assert_eq!(Canvas::fill(0, 4, rgb(0, 0, 0)).err(), Some(CanvasError::InvalidDimensions));
    assert_eq!(Canvas::fill(4, 0, rgb(0, 0, 0)).err(), Some(CanvasError::InvalidDimensions));
    assert_eq!(Canvas::fill(-3, 4, rgb(0, 0, 0)).err(), Some(CanvasError::InvalidDimensions));
}

#[test]
fn fill_rejects_sizes_beyond_usize() {
    if usize::BITS == 32 {
        assert_eq!(
            Canvas::fill(i32::MAX, i32::MAX, rgb(0, 0, 0)).err(),
            Some(CanvasError::TooLarge)
        );
    }
}

#[test]
fn stamp_even_size_scenario() {
    let grey = rgb(191, 191, 191);
    let black = rgb(0, 0, 0);
    let mut c = filled(4, 4, grey);
    c.stamp(2, 2, 2, black);
    for y in 0..4 {
        for x in 0..4 {
            let inside = (x == 1 || x == 2) && (y == 1 || y == 2);
            assert_eq!(c.pixel(x, y), if inside { black } else { grey }, "pixel ({x},{y})");
        }
    }
}

#[test]
fn stamp_odd_size_inside_paints_size_minus_one_square() {
    let bg = rgb(10, 20, 30);
    let paint = rgb(200, 100, 50);
    let mut c = filled(9, 9, bg);
    c.stamp(4, 4, 5, paint);
    let mut painted = 0;
    for y in 0..9 {
        for x in 0..9 {
            let inside = (2..6).contains(&x) && (2..6).contains(&y);
            assert_eq!(c.pixel(x, y), if inside { paint } else { bg });
            if c.pixel(x, y) == paint {
                painted += 1;
            }
        }
    }
    assert_eq!(painted, 16);
}

#[test]
fn stamp_never_paints_top_row() {
    let bg = rgb(5, 5, 5);
    let paint = rgb(9, 9, 9);
    let mut c = filled(6, 6, bg);
    c.stamp(2, 0, 4, paint);
    for x in 0..6 {
        assert_eq!(c.pixel(x, 0), bg);
    }
    assert_eq!(c.pixel(0, 1), paint);
    assert_eq!(c.pixel(3, 1), paint);
    assert_eq!(c.pixel(4, 1), bg);
    assert_eq!(c.pixel(0, 2), bg);
}

#[test]
fn stamp_far_outside_changes_nothing() {
    let bg = rgb(7, 8, 9);
    let mut c = filled(4, 4, bg);
    let before = c.data().to_vec();
    c.stamp(i32::MIN, i32::MAX, u32::MAX, rgb(1, 1, 1));
    c.stamp(-100, 2, 10, rgb(1, 1, 1));
    c.stamp(2, 200, 10, rgb(1, 1, 1));
    assert_eq!(c.data(), &before[..]);
}

#[test]
fn stamp_clips_at_edges() {
    let bg = rgb(0, 0, 0);
    let paint = rgb(1, 2, 3);
    let mut c = filled(4, 4, bg);
    c.stamp(3, 3, 4, paint);
    assert_eq!(c.data().len(), 48);
    for y in 0..4 {
        for x in 0..4 {
            let inside = x >= 1 && y >= 1;
            assert_eq!(c.pixel(x, y), if inside { paint } else { bg });
        }
    }
}

#[test]
fn radial_blend_scenario() {
    let mut c = filled(3, 3, rgb(0, 0, 0));
    c.radial_blend(1, 1, 1, rgb(255, 0, 0));
    assert_eq!(c.pixel(1, 1), rgb(255, 0, 0));
    assert_eq!(c.pixel(0, 1), rgb(255, 0, 0));
    assert_eq!(c.pixel(1, 0), rgb(255, 0, 0));
    assert_eq!(c.pixel(2, 1), rgb(255, 0, 0));
    assert_eq!(c.pixel(1, 2), rgb(255, 0, 0));
    assert_eq!(c.pixel(0, 0), rgb(127, 0, 0));
    assert_eq!(c.pixel(2, 2), rgb(127, 0, 0));
    assert_eq!(c.pixel(0, 2), rgb(127, 0, 0));
    assert_eq!(c.pixel(2, 0), rgb(127, 0, 0));
}

#[test]
fn radial_blend_inverse_square_falloff() {
    let mut c = filled(5, 1, rgb(0, 0, 0));
    c.radial_blend(0, 0, 1, rgb(255, 100, 3));
    assert_eq!(c.pixel(2, 0), rgb(63, 25, 0));
    assert_eq!(c.pixel(3, 0), rgb(28, 11, 0));
    assert_eq!(c.pixel(4, 0), rgb(15, 6, 0));
}

#[test]
fn radial_blend_centre_adds_and_clamps() {
    let mut c = filled(3, 3, rgb(100, 200, 0));
    c.radial_blend(1, 1, 1, rgb(100, 100, 7));
    assert_eq!(c.pixel(1, 1), rgb(200, 255, 7));
}

#[test]
fn radial_blend_twice_accumulates() {
    let mut c = filled(7, 7, rgb(10, 0, 250));
    let paint = rgb(60, 1, 3);
    c.radial_blend(3, 3, 2, paint);
    let once = c.data().to_vec();
    c.radial_blend(3, 3, 2, paint);
    let twice = c.data().to_vec();
    assert_ne!(once, twice);
    assert_eq!(c.pixel(3, 3), rgb(130, 2, 255));
    for (a, b) in once.iter().zip(twice.iter()) {
        assert!(a <= b);
    }
}

#[test]
fn radial_blend_centre_off_canvas() {
    let mut c = filled(2, 2, rgb(0, 0, 0));
    c.radial_blend(-2, 0, 1, rgb(200, 0, 0));
    assert_eq!(c.pixel(0, 0), rgb(50, 0, 0));
    assert_eq!(c.pixel(1, 0), rgb(22, 0, 0));
    assert_eq!(c.pixel(0, 1), rgb(40, 0, 0));
}

#[test]
fn apply_background_messages_refill() {
    let mut c = filled(3, 2, rgb(1, 2, 3));
    assert_eq!(c.apply(Message::WBev, rgb(0, 0, 0)), Effect::Redraw);
    assert!(c.data().iter().all(|&b| b == 255));
    assert_eq!(c.apply(Message::GBev, rgb(0, 0, 0)), Effect::Redraw);
    assert!(c.data().iter().all(|&b| b == 127));
    assert_eq!(c.apply(Message::LGBev, rgb(0, 0, 0)), Effect::Redraw);
    assert!(c.data().iter().all(|&b| b == 191));
    assert_eq!(c.apply(Message::BBev, rgb(9, 9, 9)), Effect::Redraw);
    assert!(c.data().iter().all(|&b| b == 0));
    assert_eq!((c.width(), c.height(), c.data().len()), (3, 2, 18));
}

#[test]
fn apply_pointer_messages_paint() {
    let mut c = filled(40, 40, rgb(0, 0, 0));
    let paint = rgb(0, 50, 0);
    assert_eq!(c.apply(Message::MouseDrag(10, 10), paint), Effect::Redraw);
    assert_eq!(c.pixel(8, 8), paint);
    assert_eq!(c.pixel(11, 11), paint);
    assert_eq!(c.pixel(12, 12), rgb(0, 0, 0));
    assert_eq!(c.apply(Message::MouseDown(30, 30), paint), Effect::Redraw);
    assert_eq!(c.pixel(30, 30), paint);
    assert_eq!(c.pixel(30, 14), paint);
    assert_eq!(c.pixel(30, 0), rgb(0, 14, 0));
}

#[test]
fn apply_other_messages_change_nothing() {
    let mut c = filled(3, 3, rgb(4, 5, 6));
    let before = c.data().to_vec();
    assert_eq!(c.apply(Message::Quit, rgb(0, 0, 0)), Effect::Quit);
    assert_eq!(c.apply(Message::ImageEvent, rgb(0, 0, 0)), Effect::Ignore);
    assert_eq!(c.apply(Message::MouseMove(1, 1), rgb(0, 0, 0)), Effect::Ignore);
    assert_eq!(c.data(), &before[..]);
}

#[test]
fn handle_paints_with_a_drawn_brush() {
    let mut c = filled(10, 10, rgb(0, 0, 0));
    assert_eq!(c.handle(Message::MouseDrag(5, 5)), Effect::Redraw);
    let p = c.pixel(4, 4);
    for y in 3..7 {
        for x in 3..7 {
            assert_eq!(c.pixel(x, y), p);
        }
    }
    assert_eq!(c.pixel(2, 2), rgb(0, 0, 0));
    assert_eq!(c.handle(Message::Quit), Effect::Quit);
}
