//! The tiling layout engine: a pure function from a window count, the screen
//! size, the reserved insets and the gap to a list of rectangles, one per
//! window, in slot order from left to right.

use vstd::prelude::*;

verus! {

/// A screen-space rectangle assigned to one window.
#[derive(Debug, Clone, Copy, PartialEq, Eq, Structural)]
pub struct Rect {
    pub x: i32,
    pub y: i32,
    pub w: i32,
    pub h: i32,
}

/// The reserved space at the four screen edges, collected from panel struts:
/// `x0` is the left inset, `x1` the right, `y0` the top, `y1` the bottom.
#[derive(Debug, Clone, Copy, PartialEq, Eq, Structural)]
pub struct Reserve {
    pub x0: u32,
    pub y0: u32,
    pub x1: u32,
    pub y1: u32,
}

impl Default for Reserve {
    /// No space reserved at any edge.
    fn default() -> (r: Reserve)
        ensures
            r == (Reserve { x0: 0, y0: 0, x1: 0, y1: 0 }),
    {
        Reserve { x0: 0, y0: 0, x1: 0, y1: 0 }
    }
}

/// The width of one slot: the usable width (after insets and the two outer
/// gaps) divided evenly among `n` windows, remainder pixels absorbed.
pub open spec fn spec_slot_w(n: int, sw: int, x0: int, x1: int, gap: int) -> int {
    (sw - x0 - x1 - 2 * gap) / n
}

/// The rectangle of slot `i`, before the positive-size filter.
pub open spec fn spec_slot_rect(
    i: int,
    n: int,
    sw: int,
    sh: int,
    x0: int,
    y0: int,
    x1: int,
    y1: int,
    gap: int,
) -> Rect {
    let slot = spec_slot_w(n, sw, x0, x1, gap);
    let half = gap / 2;
    Rect {
        x: (gap + i * slot + half + x0) as i32,
        y: (gap + y0) as i32,
        w: (slot - 2 * half) as i32,
        h: (sh - y0 - y1 - 2 * gap) as i32,
    }
}

/// The layout: one rectangle per window in slot order, or no rectangles at
/// all when the computed width or height is not positive (small screens or
/// oversized insets drop the whole row rather than clamp it).
pub open spec fn spec_window_rects(
    n: int,
    sw: int,
    sh: int,
    x0: int,
    y0: int,
    x1: int,
    y1: int,
    gap: int,
) -> Seq<Rect> {
    let usable = sw - x0 - x1 - 2 * gap;
    let slot = spec_slot_w(n, sw, x0, x1, gap);
    let w = slot - 2 * (gap / 2);
    let h = sh - y0 - y1 - 2 * gap;
    if n <= 0 || usable <= 0 || w <= 0 || h <= 0 {
        Seq::empty()
    } else {
        Seq::new(n as nat, |i: int| spec_slot_rect(i, n, sw, sh, x0, y0, x1, y1, gap))
    }
}

/// Computes the tiling rectangles for `n` windows on a `screen_w` by
/// `screen_h` screen with the given reserved insets and gap. Returns either
/// one rectangle per window, in order, or an empty list when a slot would
/// not have positive size.
pub fn window_rects(n: usize, screen_w: u16, screen_h: u16, reserved: &Reserve, gap: u8) -> (r:
    Vec<Rect>)
    ensures
        r@ == spec_window_rects(
            n as int,
            screen_w as int,
            screen_h as int,
            reserved.x0 as int,
            reserved.y0 as int,
            reserved.x1 as int,
            reserved.y1 as int,
            gap as int,
        ),
{
    let mut rs: Vec<Rect> = Vec::new();
    let ghost sw = screen_w as int;
    let ghost sh = screen_h as int;
    let ghost gx0 = reserved.x0 as int;
    let ghost gy0 = reserved.y0 as int;
    let ghost gx1 = reserved.x1 as int;
    let ghost gy1 = reserved.y1 as int;
    let ghost g = gap as int;

    if n == 0 {
        return rs;
    }
    let usable: i64 = screen_w as i64 - reserved.x0 as i64 - reserved.x1 as i64 - 2 * gap as i64;
    if usable <= 0 {
        return rs;
    }
    if n as u64 > usable as u64 {
        // More windows than usable pixels: each slot rounds down to zero
        // width, so every rectangle is dropped.
        proof {
            vstd::arithmetic::div_mod::lemma_basic_div(usable as int, n as int);
        }
        return rs;
    }
    let slot: i64 = usable / n as i64;
    let half: i64 = (gap / 2) as i64;
    let w: i64 = slot - 2 * half;
    let h: i64 = screen_h as i64 - reserved.y0 as i64 - reserved.y1 as i64 - 2 * gap as i64;
    if w <= 0 || h <= 0 {
        return rs;
    }

    proof {
        // n * slot <= usable bounds every x coordinate by the screen width.
        vstd::arithmetic::div_mod::lemma_fundamental_div_mod(usable as int, n as int);
        vstd::arithmetic::div_mod::lemma_mod_division_less_than_divisor(usable as int, n as int);
        vstd::arithmetic::mul::lemma_mul_is_commutative(n as int, slot as int);
        vstd::arithmetic::mul::lemma_mul_inequality(1, n as int, slot as int);
    }
    assert(slot <= usable);

    let mut i: usize = 0;
    while i < n
        invariant
            sw == screen_w as int,
            sh == screen_h as int,
            gx0 == reserved.x0 as int,
            gy0 == reserved.y0 as int,
            gx1 == reserved.x1 as int,
            gy1 == reserved.y1 as int,
            g == gap as int,
            0 < n <= usable,
            i <= n,
            slot == spec_slot_w(n as int, sw, gx0, gx1, g),
            half == g / 2,
            w == slot - 2 * half,
            h == sh - gy0 - gy1 - 2 * g,
            0 < w,
            0 < h,
            0 < slot,
            usable == sw - gx0 - gx1 - 2 * g,
            0 < usable <= 0xffff,
            n as int * slot <= usable,
            slot <= usable,
            0 <= g <= 255,
            0 <= gx0,
            0 <= gx1,
            gx0 + gx1 <= sw,
            0 <= gy0,
            0 <= gy1,
            0 <= sw <= 0xffff,
            0 <= sh <= 0xffff,
            rs@ =~= Seq::new(
                i as nat,
                |j: int| spec_slot_rect(j, n as int, sw, sh, gx0, gy0, gx1, gy1, g),
            ),
        decreases n - i,
    {
        proof {
            // i * slot stays within the usable width.
            vstd::arithmetic::mul::lemma_mul_inequality(i as int, n as int, slot as int);
            vstd::arithmetic::mul::lemma_mul_nonnegative(i as int, slot as int);
            vstd::arithmetic::mul::lemma_mul_is_commutative(i as int, slot as int);
        }
        assert(0 <= i as int * slot <= usable);
        let prod: i64 = i as i64 * slot;
        let x: i64 = gap as i64 + prod + half + reserved.x0 as i64;
        let y: i64 = gap as i64 + reserved.y0 as i64;
        // Every coordinate fits the rectangle's field type.
        assert(0 <= x < 0x8000_0000);
        assert(0 <= y < 0x8000_0000);
        assert(0 < w < 0x8000_0000);
        assert(0 < h < 0x8000_0000);
        rs.push(Rect { x: x as i32, y: y as i32, w: w as i32, h: h as i32 });
        assert(rs@.last() == spec_slot_rect(i as int, n as int, sw, sh, gx0, gy0, gx1, gy1, g));
        i += 1;
    }
    assert(rs@ =~= spec_window_rects(n as int, sw, sh, gx0, gy0, gx1, gy1, g));
    rs
}

/// One physical screen as the server reports it: origin and size.
#[derive(Debug, Clone, Copy, PartialEq, Eq, Structural)]
pub struct ScreenArea {
    pub x_org: i16,
    pub y_org: i16,
    pub width: i16,
    pub height: i16,
}

/// The larger of two values.
pub open spec fn spec_max_i32(a: int, b: int) -> int {
    if a >= b {
        a
    } else {
        b
    }
}

/// The bounding box of the screens seen so far: the maximum of origin plus
/// extent, per axis, starting from zero.
pub open spec fn spec_screen_bounds(screens: Seq<ScreenArea>) -> (int, int)
    decreases screens.len(),
{
    if screens.len() == 0 {
        (0, 0)
    } else {
        let r = spec_screen_bounds(screens.drop_last());
        let s = screens.last();
        (
            spec_max_i32(r.0, s.x_org + s.width),
            spec_max_i32(r.1, s.y_org + s.height),
        )
    }
}

/// Folds a list of physical screens into one bounding box, treated as the
/// single region the layout tiles.
pub fn screen_bounds(screens: &Vec<ScreenArea>) -> (r: (i32, i32))
    ensures
        r.0 == spec_screen_bounds(screens@).0,
        r.1 == spec_screen_bounds(screens@).1,
{
    let mut max_x: i32 = 0;
    let mut max_y: i32 = 0;
    let n = screens.len();
    let mut i: usize = 0;
    while i < n
        invariant
            i <= n,
            n == screens@.len(),
            max_x == spec_screen_bounds(screens@.take(i as int)).0,
            max_y == spec_screen_bounds(screens@.take(i as int)).1,
        decreases n - i,
    {
        let s = screens[i];
        let sx = s.x_org as i32 + s.width as i32;
        let sy = s.y_org as i32 + s.height as i32;
        if sx > max_x {
            max_x = sx;
        }
        if sy > max_y {
            max_y = sy;
        }
        proof {
            assert(screens@.take(i + 1).drop_last() =~= screens@.take(i as int));
            assert(screens@.take(i + 1).last() == screens@[i as int]);
        }
        i += 1;
    }
    assert(screens@.take(n as int) =~= screens@);
    (max_x, max_y)
}

/// The layout is deterministic and ordered: for a fixed input, the result is
/// a fixed list, each rectangle lies strictly to the left of the next, and no
/// two rectangles overlap horizontally.
pub proof fn lemma_rects_ordered(
    n: int,
    sw: int,
    sh: int,
    x0: int,
    y0: int,
    x1: int,
    y1: int,
    gap: int,
)
    requires
        0 <= gap <= 255,
        0 <= sw <= 0xffff,
        0 <= sh <= 0xffff,
        0 <= x0,
        0 <= x1,
        0 <= y0,
        0 <= y1,
    ensures
        forall|i: int, j: int|
            0 <= i < j < spec_window_rects(n, sw, sh, x0, y0, x1, y1, gap).len()
                ==> #[trigger] spec_window_rects(n, sw, sh, x0, y0, x1, y1, gap)[i].x
                + spec_window_rects(n, sw, sh, x0, y0, x1, y1, gap)[i].w
                <= #[trigger] spec_window_rects(n, sw, sh, x0, y0, x1, y1, gap)[j].x,
{
    let rects = spec_window_rects(n, sw, sh, x0, y0, x1, y1, gap);
    if rects.len() > 0 {
        let usable = sw - x0 - x1 - 2 * gap;
        let slot = spec_slot_w(n, sw, x0, x1, gap);
        let half = gap / 2;
        let w = slot - 2 * half;
        assert(0 < n && 0 < usable && 0 < w);
        assert(n * slot <= usable) by {
            vstd::arithmetic::div_mod::lemma_fundamental_div_mod(usable, n);
            vstd::arithmetic::div_mod::lemma_mod_division_less_than_divisor(usable, n);
        }
        assert forall|i: int, j: int| 0 <= i < j < rects.len() implies #[trigger] rects[i].x
            + rects[i].w <= #[trigger] rects[j].x by {
            assert(rects[i] == spec_slot_rect(i, n, sw, sh, x0, y0, x1, y1, gap));
            assert(rects[j] == spec_slot_rect(j, n, sw, sh, x0, y0, x1, y1, gap));
            // Every coordinate stays in range of the field type.
            vstd::arithmetic::mul::lemma_mul_nonnegative(i, slot);
            vstd::arithmetic::mul::lemma_mul_nonnegative(j, slot);
            vstd::arithmetic::mul::lemma_mul_inequality(i, n, slot);
            vstd::arithmetic::mul::lemma_mul_inequality(j, n, slot);
            // (i + 1) * slot <= j * slot since i + 1 <= j and slot > 0.
            vstd::arithmetic::mul::lemma_mul_inequality(i + 1, j, slot);
            vstd::arithmetic::mul::lemma_mul_is_distributive_add_other_way(slot, i, 1);
            assert((i + 1) * slot == i * slot + 1 * slot);
            assert(gap + i * slot + half + x0 + w <= gap + j * slot + half + x0);
        }
    }
}

} // verus!
