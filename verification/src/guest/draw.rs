//! Drawing on the frame of the display: single pixels, a filled circle, and
//! the circle with a mouth.

use vstd::prelude::*;
use crate::guest::oled::{Display, DisplayError, DisplayView, PixelColor, on_screen};

verus! {

/// Whether `(x, y)` lies in the disc of radius `r` round `(cx, cy)`. A
/// negative radius has no points.
pub open spec fn in_disc(x: int, y: int, cx: int, cy: int, r: int) -> bool {
    r >= 0 && (x - cx) * (x - cx) + (y - cy) * (y - cy) <= r * r
}

/// Whether `(x, y)` lies in the open mouth of the figure at `(cx, cy)`: to
/// the right of the centre, within the wedge of 45 degrees either way.
pub open spec fn in_mouth(x: int, y: int, cx: int, cy: int) -> bool {
    x > cx && (if y >= cy {
        y - cy
    } else {
        cy - y
    }) < x - cx
}

/// Whether `(x, y)` belongs to the figure: the disc, without the mouth when
/// that is open.
pub open spec fn in_pacman(x: int, y: int, cx: int, cy: int, r: int, mouth: bool) -> bool {
    in_disc(x, y, cx, cy, r) && !(mouth && in_mouth(x, y, cx, cy))
}

/// Whether `after` is `before` with the on-screen pixels of `shape` lit and
/// nothing else changed.
pub open spec fn overlaid(
    before: DisplayView,
    after: DisplayView,
    shape: spec_fn(int, int) -> bool,
) -> bool {
    &&& after.is_on == before.is_on
    &&& after.frame.len() == before.frame.len()
    &&& forall|x: int, y: int| #![trigger after.lit(x, y)]
        on_screen(x, y) ==> after.lit(x, y) == (before.lit(x, y) || shape(x, y))
}

/// Lights the pixel `(x, y)` if it is on the screen, and does nothing if it
/// is not. The display is on.
pub fn safe_draw(d: &mut Display, x: i32, y: i32)
    requires
        old(d)@.is_on,
    ensures
        overlaid(old(d)@, final(d)@, |px: int, py: int| px == x && py == y),
{
    match d.set_pixel(x, y, PixelColor::On) {
        Ok(_) => {},
        Err(_) => {},
    }
}

proof fn lemma_disc_in_box(dx: int, dy: int, r: int)
    by (nonlinear_arith)
    requires
        r >= 0,
        dx * dx + dy * dy <= r * r,
    ensures
        -r <= dx <= r,
        -r <= dy <= r,
{
    assert(dx * dx >= 0);
    assert(dy * dy >= 0);
    if dx > r {
        assert(dx * dx > r * r);
    }
    if dx < -r {
        assert(dx * dx > r * r);
    }
    if dy > r {
        assert(dy * dy > r * r);
    }
    if dy < -r {
        assert(dy * dy > r * r);
    }
}

proof fn lemma_square_bound(d: int, r: int)
    by (nonlinear_arith)
    requires
        0 <= r <= i32::MAX,
        -r <= d <= r,
    ensures
        0 <= d * d <= r * r,
        r * r <= 0x3fff_ffff_0000_0001,
{
}

/// Whether `(x, y)` belongs to the figure and to the part of its bounding box
/// that a scan by rows has passed when it stands at `(at_x, at_y)`.
spec fn scanned(x: int, y: int, at_x: int, at_y: int, cx: int, cy: int, r: int, mouth: bool)
    -> bool {
    &&& cx - r <= x <= cx + r
    &&& cy - r <= y <= cy + r
    &&& y < at_y || (y == at_y && x < at_x)
    &&& in_pacman(x, y, cx, cy, r, mouth)
}

/// Lights the figure of radius `r` round `(cx, cy)`, scanning its bounding
/// box row by row.
fn fill(d: &mut Display, cx: i32, cy: i32, r: i32, mouth: bool)
    requires
        old(d)@.is_on,
    ensures
        overlaid(
            old(d)@,
            final(d)@,
            |x: int, y: int| in_pacman(x, y, cx as int, cy as int, r as int, mouth),
        ),
{
    if r < 0 {
        return ;
    }
    proof {
        lemma_square_bound(r as int, r as int);
    }
    let r2: i64 = (r as i64) * (r as i64);
    let x_first: i64 = cx as i64 - r as i64;
    let x_last: i64 = cx as i64 + r as i64;
    let y_last: i64 = cy as i64 + r as i64;
    let mut y: i64 = cy as i64 - r as i64;
    while y <= y_last
        invariant
            r >= 0,
            r2 == r * r,
            x_first == cx - r,
            x_last == cx + r,
            y_last == cy + r,
            cy - r <= y <= y_last + 1,
            d@.is_on,
            d@.frame.len() == old(d)@.frame.len(),
            forall|px: int, py: int| #![trigger d@.lit(px, py)]
                on_screen(px, py) ==> d@.lit(px, py) == (old(d)@.lit(px, py) || scanned(
                    px,
                    py,
                    cx - r,
                    y as int,
                    cx as int,
                    cy as int,
                    r as int,
                    mouth,
                )),
        decreases y_last + 1 - y,
    {
        let mut x: i64 = x_first;
        while x <= x_last
            invariant
                r >= 0,
                r2 == r * r,
                x_first == cx - r,
                x_last == cx + r,
                y_last == cy + r,
                cy - r <= y <= y_last,
                x_first <= x <= x_last + 1,
                d@.is_on,
                d@.frame.len() == old(d)@.frame.len(),
                forall|px: int, py: int| #![trigger d@.lit(px, py)]
                    on_screen(px, py) ==> d@.lit(px, py) == (old(d)@.lit(px, py) || scanned(
                        px,
                        py,
                        x as int,
                        y as int,
                        cx as int,
                        cy as int,
                        r as int,
                        mouth,
                    )),
            decreases x_last + 1 - x,
        {
            let dx: i64 = x - cx as i64;
            let dy: i64 = y - cy as i64;
            proof {
                lemma_square_bound(dx as int, r as int);
                lemma_square_bound(dy as int, r as int);
            }
            let inside = dx * dx + dy * dy <= r2;
            let gap: i64 = if dy >= 0 {
                dy
            } else {
                -dy
            };
            let skipped = mouth && dx > 0 && gap < dx;
            assert(inside == in_disc(x as int, y as int, cx as int, cy as int, r as int));
            assert(skipped == (mouth && in_mouth(x as int, y as int, cx as int, cy as int)));
            if inside && !skipped {
                if 0 <= x && x < 128 && 0 <= y && y < 32 {
                    let ghost before = d@;
                    safe_draw(d, x as i32, y as i32);
                    assert forall|px: int, py: int| #![trigger d@.lit(px, py)]
                        on_screen(px, py) implies d@.lit(px, py) == (old(d)@.lit(px, py) || scanned(
                        px,
                        py,
                        x + 1,
                        y as int,
                        cx as int,
                        cy as int,
                        r as int,
                        mouth,
                    )) by {
                        assert(d@.lit(px, py) == (before.lit(px, py) || (px == x && py == y)));
                    }
                }
            }
            x += 1;
        }
        y += 1;
    }
    proof {
        assert forall|px: int, py: int| #![trigger d@.lit(px, py)]
            on_screen(px, py) implies d@.lit(px, py) == (old(d)@.lit(px, py) || in_pacman(
            px,
            py,
            cx as int,
            cy as int,
            r as int,
            mouth,
        )) by {
            if in_disc(px, py, cx as int, cy as int, r as int) {
                lemma_disc_in_box(px - cx, py - cy, r as int);
            }
        }
    }
}

/// Lights every pixel of the screen that lies in the disc of radius `r`
/// round `(cx, cy)`. The rest of the frame stays as it is.
pub fn draw_circle(d: &mut Display, cx: i32, cy: i32, r: i32)
    requires
        old(d)@.is_on,
    ensures
        overlaid(
            old(d)@,
            final(d)@,
            |x: int, y: int| in_disc(x, y, cx as int, cy as int, r as int),
        ),
{
    fill(d, cx, cy, r, false);
}

/// Lights every pixel of the screen that lies in the disc of radius `r`
/// round `(cx, cy)`, but for the wedge of the mouth when `mouth` says that
/// it is open. The rest of the frame stays as it is.
pub fn draw_pacman(d: &mut Display, cx: i32, cy: i32, r: i32, mouth: bool)
    requires
        old(d)@.is_on,
    ensures
        overlaid(
            old(d)@,
            final(d)@,
            |x: int, y: int| in_pacman(x, y, cx as int, cy as int, r as int, mouth),
        ),
{
    fill(d, cx, cy, r, mouth);
}

} // verus!
