//! Tests of the tiling layout engine.

use nwm::geometry::{Rect, Reserve, ScreenArea, screen_bounds, window_rects};

fn no_reserve() -> Reserve {
    Reserve { x0: 0, y0: 0, x1: 0, y1: 0 }
}

#[test]
fn three_windows_full_hd() {
    // Three windows on 1920x1080 with gap 8 and nothing reserved.
    let rects = window_rects(3, 1920, 1080, &no_reserve(), 8);
    assert_eq!(rects.len(), 3);
    let expected_w = (1920 - 16) / 3 - 8;
    let mut total = 0;
    for r in &rects {
        assert_eq!(r.h, 1080 - 16);
        assert_eq!(r.y, 8);
        assert_eq!(r.w, expected_w);
        total += r.w;
    }
    assert!(total <= 1920 - 16);
}

#[test]
fn reserved_top_insets_the_row() {
    // A panel reserving 30 pixels at the top pushes the row down.
    let reserved = Reserve { x0: 0, y0: 30, x1: 0, y1: 0 };
    let rects = window_rects(1, 1920, 1080, &reserved, 8);
    assert_eq!(rects.len(), 1);
    assert_eq!(rects[0].y, 8 + 30);
    assert_eq!(rects[0].h, 1080 - 30 - 16);
}

#[test]
fn odd_gap_halves_truncate() {
    // With gap 7 and slot width 101 each half-gap is 3, so the width is
    // 101 - 6 = 95, not 101 - 7.
    let rects = window_rects(1, 115, 100, &no_reserve(), 7);
    assert_eq!(rects.len(), 1);
    assert_eq!(rects[0].w, 101 - 2 * 3);
    assert_eq!(rects[0].w, 95);
}

#[test]
fn layout_is_deterministic_and_ordered() {
    let a = window_rects(4, 1280, 800, &no_reserve(), 6);
    let b = window_rects(4, 1280, 800, &no_reserve(), 6);
    assert_eq!(a, b);
    assert_eq!(a.len(), 4);
    for i in 1..a.len() {
        // Strictly left to right, without overlap.
        assert!(a[i - 1].x + a[i - 1].w <= a[i].x);
    }
}

#[test]
fn no_windows_no_rects() {
    let rects = window_rects(0, 1920, 1080, &no_reserve(), 8);
    assert!(rects.is_empty());
}

#[test]
fn tiny_screen_drops_rects() {
    // A gap larger than the screen leaves no positive-size slot.
    let rects = window_rects(2, 10, 10, &no_reserve(), 8);
    assert!(rects.is_empty());
}

#[test]
fn more_windows_than_pixels_drops_rects() {
    let rects = window_rects(5000, 100, 100, &no_reserve(), 1);
    assert!(rects.is_empty());
}

#[test]
fn screen_bounds_cover_all_monitors() {
    let screens = vec![
        ScreenArea { x_org: 0, y_org: 0, width: 1920, height: 1080 },
        ScreenArea { x_org: 1920, y_org: 0, width: 1280, height: 1024 },
    ];
    assert_eq!(screen_bounds(&screens), (3200, 1080));
    assert_eq!(screen_bounds(&Vec::new()), (0, 0));
}

#[test]
fn left_edge_offset_by_reserved_left() {
    let reserved = Reserve { x0: 20, y0: 0, x1: 0, y1: 0 };
    let rects = window_rects(1, 1920, 1080, &reserved, 8);
    assert_eq!(rects.len(), 1);
    // x = gap + half-gap + reserved left.
    assert_eq!(rects[0].x, 8 + 4 + 20);
    assert_eq!(
        rects[0],
        Rect { x: 32, y: 8, w: (1920 - 20 - 16) / 1 - 8, h: 1080 - 16 }
    );
}
