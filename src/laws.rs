use vstd::prelude::*;

use crate::canvas::{Raster, blend_channel, blend_pixel, dist2, in_square};
use crate::color::Rgb;
use vstd::relations::injective_on;
use vstd::set_lib::{lemma_int_range, lemma_map_size, lemma_set_disjoint_lens, set_int_range};

verus! {

/// `v`, clamped at 255.
pub open spec fn clamp255(v: int) -> int {
    if v > 255 {
        255
    } else {
        v
    }
}

proof fn lemma_blend_channel_grows(old: u8, c: u8, d2: int, r2: int)
    requires
        0 <= r2,
    ensures
        old <= blend_channel(old, c, d2, r2),
        d2 <= r2 ==> blend_channel(old, c, d2, r2) == clamp255(old + c),
{
    if d2 > r2 {
        assert(0 <= (c as int) * r2 / d2) by (nonlinear_arith)
            requires
                d2 > r2,
                r2 >= 0,
                c >= 0,
        ;
    }
}

proof fn lemma_blend_pixel_grows(old: Rgb, c: Rgb, d2: int, r2: int)
    requires
        0 <= r2,
    ensures
        old.r <= blend_pixel(old, c, d2, r2).r,
        old.g <= blend_pixel(old, c, d2, r2).g,
        old.b <= blend_pixel(old, c, d2, r2).b,
        d2 <= r2 ==> blend_pixel(old, c, d2, r2).r == clamp255(old.r + c.r),
        d2 <= r2 ==> blend_pixel(old, c, d2, r2).g == clamp255(old.g + c.g),
        d2 <= r2 ==> blend_pixel(old, c, d2, r2).b == clamp255(old.b + c.b),
{
    lemma_blend_channel_grows(old.r, c.r, d2, r2);
    lemma_blend_channel_grows(old.g, c.g, d2, r2);
    lemma_blend_channel_grows(old.b, c.b, d2, r2);
}

/// The pixel positions of the half-open rectangle `[x0, x1) x [y0, y1)`.
pub open spec fn rect(x0: int, x1: int, y0: int, y1: int) -> Set<(int, int)> {
    Set::new(|p: (int, int)| x0 <= p.0 < x1 && y0 <= p.1 < y1)
}

proof fn lemma_rect_len(x0: int, x1: int, y0: int, y1: int)
    requires
        x0 <= x1,
        y0 <= y1,
    ensures
        rect(x0, x1, y0, y1).finite(),
        rect(x0, x1, y0, y1).len() == (x1 - x0) * (y1 - y0),
    decreases y1 - y0,
{
    if y0 == y1 {
        assert(rect(x0, x1, y0, y1) =~= Set::empty());
    } else {
        let y = y1 - 1;
        let f = |x: int| (x, y);
        let row = set_int_range(x0, x1).map(f);
        lemma_rect_len(x0, x1, y0, y);
        lemma_int_range(x0, x1);
        assert(injective_on(f, set_int_range(x0, x1)));
        lemma_map_size(set_int_range(x0, x1), row, f);
        assert forall|p: (int, int)| #[trigger] rect(x0, x1, y0, y1).contains(p) implies rect(
            x0,
            x1,
            y0,
            y,
        ).contains(p) || row.contains(p) by {
            if p.1 == y {
                assert(set_int_range(x0, x1).contains(p.0) && f(p.0) == p);
            }
        }
        assert(rect(x0, x1, y0, y1) =~= rect(x0, x1, y0, y) + row);
        assert(rect(x0, x1, y0, y).disjoint(row));
        lemma_set_disjoint_lens(rect(x0, x1, y0, y), row);
        assert((x1 - x0) * (y1 - y0) == (x1 - x0) * (y - y0) + (x1 - x0)) by (nonlinear_arith)
            requires
                y == y1 - 1,
        ;
    }
}

/// A brush square that lies wholly inside the canvas, below the top row,
/// paints exactly the pixels of `[cx - size/2, cx + size/2) x
/// [cy - size/2, cy + size/2)` and leaves every other pixel as it was.
/// That square holds `(2 * (size/2))^2` pixels: `size^2` for even `size`,
/// `(size - 1)^2` for odd `size`.
pub proof fn stamp_inside_paints_square(
    before: Raster,
    after: Raster,
    cx: int,
    cy: int,
    size: int,
    color: Rgb,
)
    requires
        before.wf(),
        before.stamped(after, cx, cy, size, color),
        0 <= size,
        0 <= cx - size / 2,
        cx + size / 2 <= before.width,
        1 <= cy - size / 2,
        cy + size / 2 <= before.height,
    ensures
        forall|x: int, y: int|
            before.in_bounds(x, y) ==> #[trigger] after.pixel(x, y) == if rect(
                cx - size / 2,
                cx + size / 2,
                cy - size / 2,
                cy + size / 2,
            ).contains((x, y)) {
                color
            } else {
                before.pixel(x, y)
            },
        rect(cx - size / 2, cx + size / 2, cy - size / 2, cy + size / 2).finite(),
        rect(cx - size / 2, cx + size / 2, cy - size / 2, cy + size / 2).len() == (2 * (size / 2))
            * (2 * (size / 2)),
        size % 2 == 0 ==> rect(cx - size / 2, cx + size / 2, cy - size / 2, cy + size / 2).len()
            == size * size,
        size % 2 == 1 ==> rect(cx - size / 2, cx + size / 2, cy - size / 2, cy + size / 2).len()
            == (size - 1) * (size - 1),
{
    lemma_rect_len(cx - size / 2, cx + size / 2, cy - size / 2, cy + size / 2);
    assert forall|x: int, y: int| before.in_bounds(x, y) implies #[trigger] after.pixel(x, y)
        == if rect(cx - size / 2, cx + size / 2, cy - size / 2, cy + size / 2).contains((x, y)) {
        color
    } else {
        before.pixel(x, y)
    } by {
        assert(after.pixel(x, y) == if in_square(x, y, cx, cy, size) {
            color
        } else {
            before.pixel(x, y)
        });
    }
}

/// Stamping keeps the buffer's size and never changes the top row, however
/// far from the canvas the brush is centred.
pub proof fn stamp_spares_top_row(
    before: Raster,
    after: Raster,
    cx: int,
    cy: int,
    size: int,
    color: Rgb,
)
    requires
        before.wf(),
        before.stamped(after, cx, cy, size, color),
    ensures
        after.same_size(before),
        forall|x: int| 0 <= x < before.width ==> #[trigger] after.pixel(x, 0) == before.pixel(x, 0),
{
    assert forall|x: int| 0 <= x < before.width implies #[trigger] after.pixel(x, 0)
        == before.pixel(x, 0) by {
        assert(before.in_bounds(x, 0));
    }
}

/// At the centre the paint is added at full strength: each channel becomes
/// the old value plus the paint's, clamped at 255.
pub proof fn blend_centre_full_strength(
    before: Raster,
    after: Raster,
    cx: int,
    cy: int,
    radius: int,
    color: Rgb,
)
    requires
        before.wf(),
        before.in_bounds(cx, cy),
        before.blended(after, cx, cy, radius, color),
    ensures
        after.pixel(cx, cy).r == clamp255(before.pixel(cx, cy).r + color.r),
        after.pixel(cx, cy).g == clamp255(before.pixel(cx, cy).g + color.g),
        after.pixel(cx, cy).b == clamp255(before.pixel(cx, cy).b + color.b),
{
    assert(radius * radius >= 0) by (nonlinear_arith);
    assert(dist2(cx, cy, cx, cy) == 0);
    lemma_blend_pixel_grows(before.pixel(cx, cy), color, 0, radius * radius);
}

/// Blending is additive, not idempotent: no channel of any pixel ever
/// decreases, and blending the same paint twice at the same point adds it
/// twice at the centre, up to 255.
pub proof fn blend_twice_accumulates(
    first: Raster,
    second: Raster,
    third: Raster,
    cx: int,
    cy: int,
    radius: int,
    color: Rgb,
)
    requires
        first.wf(),
        first.blended(second, cx, cy, radius, color),
        second.blended(third, cx, cy, radius, color),
    ensures
        forall|x: int, y: int|
            first.in_bounds(x, y) ==> {
                &&& first.pixel(x, y).r <= #[trigger] second.pixel(x, y).r <= third.pixel(x, y).r
                &&& first.pixel(x, y).g <= second.pixel(x, y).g <= third.pixel(x, y).g
                &&& first.pixel(x, y).b <= second.pixel(x, y).b <= third.pixel(x, y).b
            },
        first.in_bounds(cx, cy) ==> {
            &&& third.pixel(cx, cy).r == clamp255(first.pixel(cx, cy).r + 2 * color.r)
            &&& third.pixel(cx, cy).g == clamp255(first.pixel(cx, cy).g + 2 * color.g)
            &&& third.pixel(cx, cy).b == clamp255(first.pixel(cx, cy).b + 2 * color.b)
        },
{
    let r2 = radius * radius;
    assert(radius * radius >= 0) by (nonlinear_arith);
    assert forall|x: int, y: int| first.in_bounds(x, y) implies {
        &&& first.pixel(x, y).r <= #[trigger] second.pixel(x, y).r <= third.pixel(x, y).r
        &&& first.pixel(x, y).g <= second.pixel(x, y).g <= third.pixel(x, y).g
        &&& first.pixel(x, y).b <= second.pixel(x, y).b <= third.pixel(x, y).b
    } by {
        lemma_blend_pixel_grows(first.pixel(x, y), color, dist2(x, y, cx, cy), r2);
        lemma_blend_pixel_grows(second.pixel(x, y), color, dist2(x, y, cx, cy), r2);
    }
    if first.in_bounds(cx, cy) {
        assert(dist2(cx, cy, cx, cy) == 0);
        lemma_blend_pixel_grows(first.pixel(cx, cy), color, 0, r2);
        lemma_blend_pixel_grows(second.pixel(cx, cy), color, 0, r2);
    }
}

} // verus!
