use vstd::prelude::*;

use crate::color::Rgb;

verus! {

/// Byte offset of the red channel of pixel `(x, y)` in a row-major buffer
/// of interleaved R, G, B bytes that is `width` pixels wide.
pub open spec fn offset(width: int, x: int, y: int) -> int {
    (y * width + x) * 3
}

/// The mathematical model of a canvas: its size and its bytes.
pub struct Raster {
    pub width: int,
    pub height: int,
    pub bytes: Seq<u8>,
}

impl Raster {
    /// Positive size, and exactly three bytes per pixel, addressable by `usize`.
    pub open spec fn wf(self) -> bool {
        &&& 0 < self.width
        &&& 0 < self.height
        &&& self.bytes.len() == self.width * self.height * 3
        &&& self.bytes.len() <= usize::MAX
    }

    pub open spec fn in_bounds(self, x: int, y: int) -> bool {
        0 <= x < self.width && 0 <= y < self.height
    }

    pub open spec fn pixel(self, x: int, y: int) -> Rgb {
        let o = offset(self.width, x, y);
        Rgb { r: self.bytes[o], g: self.bytes[o + 1], b: self.bytes[o + 2] }
    }

    pub open spec fn same_size(self, other: Raster) -> bool {
        self.width == other.width && self.height == other.height && self.bytes.len()
            == other.bytes.len()
    }

    /// `after` is this raster with every pixel of the brush square of side
    /// `size` centred on `(cx, cy)` set to `color`, and nothing else changed.
    pub open spec fn stamped(self, after: Raster, cx: int, cy: int, size: int, color: Rgb) -> bool {
        &&& after.wf()
        &&& self.same_size(after)
        &&& forall|x: int, y: int|
            self.in_bounds(x, y) ==> #[trigger] after.pixel(x, y) == if in_square(
                x,
                y,
                cx,
                cy,
                size,
            ) {
                color
            } else {
                self.pixel(x, y)
            }
    }

    /// `after` is this raster with `color` blended additively into every
    /// pixel, at full strength within `radius` of `(cx, cy)` and with
    /// inverse-square falloff beyond.
    pub open spec fn blended(self, after: Raster, cx: int, cy: int, radius: int, color: Rgb) -> bool {
        &&& after.wf()
        &&& self.same_size(after)
        &&& forall|x: int, y: int|
            self.in_bounds(x, y) ==> #[trigger] after.pixel(x, y) == blend_pixel(
                self.pixel(x, y),
                color,
                dist2(x, y, cx, cy),
                radius * radius,
            )
    }
}

/// Squared Euclidean distance from `(cx, cy)` to `(x, y)`.
pub open spec fn dist2(x: int, y: int, cx: int, cy: int) -> int {
    (x - cx) * (x - cx) + (y - cy) * (y - cy)
}

/// One channel after an additive blend: the paint channel `c` scaled by the
/// brightness (1 when `d2 <= r2`, else `r2 / d2`), rounded down, added to
/// `old` and clamped at 255.
pub open spec fn blend_channel(old: u8, c: u8, d2: int, r2: int) -> u8 {
    let add = if d2 <= r2 {
        c as int
    } else {
        c as int * r2 / d2
    };
    if old as int + add > 255 {
        255
    } else {
        (old as int + add) as u8
    }
}

pub open spec fn blend_pixel(old: Rgb, c: Rgb, d2: int, r2: int) -> Rgb {
    Rgb {
        r: blend_channel(old.r, c.r, d2, r2),
        g: blend_channel(old.g, c.g, d2, r2),
        b: blend_channel(old.b, c.b, d2, r2),
    }
}

/// Whether pixel `(x, y)` lies under the brush square: `x` in
/// `[cx - size/2, cx + size/2)` and `y` in `[cy - size/2, cy + size/2)`, with
/// the top row `y == 0` never painted.
pub open spec fn in_square(x: int, y: int, cx: int, cy: int, size: int) -> bool {
    let half = size / 2;
    &&& cx - half <= x < cx + half
    &&& cy - half <= y < cy + half
    &&& y > 0
}

/// Why a canvas could not be made.
#[derive(Clone, Copy, Debug, PartialEq, Eq, Structural)]
pub enum CanvasError {
    /// The width or the height is not positive.
    InvalidDimensions,
    /// `width * height * 3` bytes do not fit in `usize`.
    TooLarge,
}

/// A mutable RGB pixel buffer of fixed size.
pub struct Canvas {
    width: i32,
    height: i32,
    data: Vec<u8>,
}

impl View for Canvas {
    type V = Raster;

    closed spec fn view(&self) -> Raster {
        Raster { width: self.width as int, height: self.height as int, bytes: self.data@ }
    }
}

proof fn lemma_offset_in_range(w: int, h: int, x: int, y: int)
    requires
        0 <= x < w,
        0 <= y < h,
    ensures
        0 <= offset(w, x, y),
        offset(w, x, y) + 3 <= w * h * 3,
{
    assert(0 <= y * w) by (nonlinear_arith)
        requires
            0 <= y,
            0 < w,
    ;
    assert(y * w + x + 1 <= w * h) by (nonlinear_arith)
        requires
            0 <= x < w,
            0 <= y < h,
    ;
}

proof fn lemma_offset_apart(w: int, x1: int, y1: int, x2: int, y2: int)
    requires
        0 <= x1 < w,
        0 <= x2 < w,
        x1 != x2 || y1 != y2,
    ensures
        offset(w, x1, y1) + 3 <= offset(w, x2, y2) || offset(w, x2, y2) + 3 <= offset(
            w,
            x1,
            y1,
        ),
{
    if y1 < y2 {
        assert(y1 * w + w <= y2 * w) by (nonlinear_arith)
            requires
                y1 < y2,
                0 < w,
        ;
    } else if y2 < y1 {
        assert(y2 * w + w <= y1 * w) by (nonlinear_arith)
            requires
                y2 < y1,
                0 < w,
        ;
    }
}

fn distance2(x: i32, y: i32, cx: i32, cy: i32) -> (d: u128)
    ensures
        d == dist2(x as int, y as int, cx as int, cy as int),
{
    let dx: u128 = if x >= cx { (x as i64 - cx as i64) as u128 } else { (cx as i64 - x as i64) as u128 };
    let dy: u128 = if y >= cy { (y as i64 - cy as i64) as u128 } else { (cy as i64 - y as i64) as u128 };
    proof {
        assert(dx * dx == (x - cx) * (x - cx)) by (nonlinear_arith)
            requires
                dx == x - cx || dx == cx - x,
        ;
        assert(dy * dy == (y - cy) * (y - cy)) by (nonlinear_arith)
            requires
                dy == y - cy || dy == cy - y,
        ;
        assert(dx * dx < 0x1_0000_0000_0000_0000) by (nonlinear_arith)
            requires
                dx < 0x1_0000_0000,
        ;
        assert(dy * dy < 0x1_0000_0000_0000_0000) by (nonlinear_arith)
            requires
                dy < 0x1_0000_0000,
        ;
    }
    dx * dx + dy * dy
}

fn blend_channel_exec(old: u8, c: u8, d2: u128, r2: u128) -> (v: u8)
    requires
        r2 < 0x1_0000_0000_0000_0000,
    ensures
        v == blend_channel(old, c, d2 as int, r2 as int),
{
    let add: u128 = if d2 <= r2 {
        c as u128
    } else {
        proof {
            assert(c * r2 <= 256 * 0x1_0000_0000_0000_0000) by (nonlinear_arith)
                requires
                    c < 256,
                    r2 < 0x1_0000_0000_0000_0000,
            ;
        }
        (c as u128) * r2 / d2
    };
    proof {
        if d2 > r2 {
            assert((c as int) * (r2 as int) / (d2 as int) <= c as int) by (nonlinear_arith)
                requires
                    d2 > r2,
                    r2 >= 0,
                    c >= 0,
            ;
        }
    }
    let sum: u128 = old as u128 + add;
    if sum > 255 {
        255
    } else {
        sum as u8
    }
}

impl Canvas {
    pub fn width(&self) -> (w: i32)
        ensures
            w == self@.width,
    {
        self.width
    }

    pub fn height(&self) -> (h: i32)
        ensures
            h == self@.height,
    {
        self.height
    }

    /// The bytes, row-major, R, G, B per pixel.
    pub fn data(&self) -> (d: &[u8])
        ensures
            d@ == self@.bytes,
    {
        self.data.as_slice()
    }

    /// The color of pixel `(x, y)`.
    pub fn pixel(&self, x: i32, y: i32) -> (c: Rgb)
        requires
            self@.wf(),
            self@.in_bounds(x as int, y as int),
        ensures
            c == self@.pixel(x as int, y as int),
    {
        proof {
            lemma_offset_in_range(self.width as int, self.height as int, x as int, y as int);
        }
        let o = self.index_of(x, y);
        Rgb { r: self.data[o], g: self.data[o + 1], b: self.data[o + 2] }
    }

    fn index_of(&self, x: i32, y: i32) -> (o: usize)
        requires
            self@.wf(),
            self@.in_bounds(x as int, y as int),
        ensures
            o == offset(self@.width, x as int, y as int),
            o + 3 <= self@.bytes.len() <= usize::MAX,
    {
        proof {
            lemma_offset_in_range(self.width as int, self.height as int, x as int, y as int);
            assert(y * self.width <= self.width * self.height) by (nonlinear_arith)
                requires
                    0 <= y < self.height,
                    0 < self.width,
            ;
        }
        let row = (y as usize) * (self.width as usize);
        (row + (x as usize)) * 3
    }

    fn set_pixel(&mut self, x: i32, y: i32, color: Rgb)
        requires
            old(self)@.wf(),
            old(self)@.in_bounds(x as int, y as int),
        ensures
            final(self)@.wf(),
            old(self)@.same_size(final(self)@),
            forall|px: int, py: int|
                old(self)@.in_bounds(px, py) ==> #[trigger] final(self)@.pixel(px, py) == if px
                    == x && py == y {
                    color
                } else {
                    old(self)@.pixel(px, py)
                },
    {
        let o = self.index_of(x, y);
        self.data.set(o, color.r);
        self.data.set(o + 1, color.g);
        self.data.set(o + 2, color.b);
        proof {
            assert forall|px: int, py: int| old(self)@.in_bounds(px, py) implies #[trigger] self@.pixel(
                px,
                py,
            ) == if px == x && py == y {
                color
            } else {
                old(self)@.pixel(px, py)
            } by {
                lemma_offset_in_range(self.width as int, self.height as int, px, py);
                if px != x || py != y {
                    lemma_offset_apart(self.width as int, px, py, x as int, y as int);
                }
            }
        }
    }

    /// Paints the brush square of side `size` centred on `(cx, cy)` with
    /// `color`, skipping what falls off the canvas and the top row.
    pub fn stamp(&mut self, cx: i32, cy: i32, size: u32, color: Rgb)
        requires
            old(self)@.wf(),
        ensures
            old(self)@.stamped(final(self)@, cx as int, cy as int, size as int, color),
    {
        let half: i64 = (size / 2) as i64;
        let x_lo: i64 = if cx as i64 - half > 0 { cx as i64 - half } else { 0 };
        let x_hi: i64 = if cx as i64 + half < self.width as i64 { cx as i64 + half } else { self.width as i64 };
        let y_lo: i64 = if cy as i64 - half > 1 { cy as i64 - half } else { 1 };
        let y_hi: i64 = if cy as i64 + half < self.height as i64 { cy as i64 + half } else { self.height as i64 };
        let ghost before = self@;
        let mut j: i64 = y_lo;
        while j < y_hi
            invariant
                self@.wf(),
                before.same_size(self@),
                self.width == before.width,
                self.height == before.height,
                half == size as int / 2,
                x_lo == if cx - half > 0 { cx - half } else { 0 },
                x_hi == if cx + half < self.width { cx + half } else { self.width as int },
                y_lo == if cy - half > 1 { cy - half } else { 1 },
                y_hi == if cy + half < self.height { cy + half } else { self.height as int },
                y_lo <= j,
                j <= y_hi || y_lo >= y_hi,
                forall|x: int, y: int|
                    before.in_bounds(x, y) ==> #[trigger] self@.pixel(x, y) == if in_square(
                        x,
                        y,
                        cx as int,
                        cy as int,
                        size as int,
                    ) && y < j {
                        color
                    } else {
                        before.pixel(x, y)
                    },
            decreases y_hi - j,
        {
            let mut i: i64 = x_lo;
            while i < x_hi
                invariant
                    self@.wf(),
                    before.same_size(self@),
                    self.width == before.width,
                    self.height == before.height,
                    half == size as int / 2,
                    x_lo == if cx - half > 0 { cx - half } else { 0 },
                    x_hi == if cx + half < self.width { cx + half } else { self.width as int },
                    y_lo == if cy - half > 1 { cy - half } else { 1 },
                    y_hi == if cy + half < self.height { cy + half } else { self.height as int },
                    y_lo <= j < y_hi,
                    x_lo <= i,
                    i <= x_hi || x_lo >= x_hi,
                    forall|x: int, y: int|
                        before.in_bounds(x, y) ==> #[trigger] self@.pixel(x, y) == if in_square(
                            x,
                            y,
                            cx as int,
                            cy as int,
                            size as int,
                        ) && (y < j || (y == j && x < i)) {
                            color
                        } else {
                            before.pixel(x, y)
                        },
                decreases x_hi - i,
            {
                self.set_pixel(i as i32, j as i32, color);
                i = i + 1;
            }
            j = j + 1;
        }
    }
    /// A new canvas of `width` x `height` pixels, every one of them `color`.
    pub fn fill(width: i32, height: i32, color: Rgb) -> (res: Result<Canvas, CanvasError>)
        ensures
            (width <= 0 || height <= 0) <==> res == Err::<Canvas, CanvasError>(
                CanvasError::InvalidDimensions,
            ),
            (0 < width && 0 < height && width * height * 3 > usize::MAX) <==> res == Err::<
                Canvas,
                CanvasError,
            >(CanvasError::TooLarge),
            res is Ok <==> (0 < width && 0 < height && width * height * 3 <= usize::MAX),
            res matches Ok(c) ==> {
                &&& c@.wf()
                &&& c@.width == width
                &&& c@.height == height
                &&& c@.bytes.len() == width * height * 3
                &&& forall|x: int, y: int| c@.in_bounds(x, y) ==> #[trigger] c@.pixel(x, y) == color
            },
    {
        if width <= 0 || height <= 0 {
            return Err(CanvasError::InvalidDimensions);
        }
        let n_pix: usize = match (width as usize).checked_mul(height as usize) {
            Some(n) => n,
            None => {
                assert(width * height * 3 > usize::MAX) by (nonlinear_arith)
                    requires
                        width * height > usize::MAX,
                ;
                return Err(CanvasError::TooLarge);
            },
        };
        if n_pix > usize::MAX / 3 {
            return Err(CanvasError::TooLarge);
        }
        let mut data: Vec<u8> = Vec::with_capacity(n_pix * 3);
        let mut p: usize = 0;
        while p < n_pix
            invariant
                p <= n_pix,
                n_pix <= usize::MAX / 3,
                data@.len() == 3 * p,
                forall|k: int| 0 <= k < 3 * p ==> #[trigger] data@[k] == color.channel(k % 3),
            decreases n_pix - p,
        {
            data.push(color.r);
            data.push(color.g);
            data.push(color.b);
            p = p + 1;
        }
        let c = Canvas { width, height, data };
        assert forall|x: int, y: int| c@.in_bounds(x, y) implies #[trigger] c@.pixel(x, y)
            == color by {
            lemma_offset_in_range(width as int, height as int, x, y);
            let o = offset(width as int, x, y);
            assert((o + 1) % 3 == 1 && (o + 2) % 3 == 2 && o % 3 == 0);
        }
        Ok(c)
    }

    /// Adds `color` to every pixel, at full strength within `radius` of
    /// `(cx, cy)` and scaled by `radius^2 / d^2` at squared distance `d^2`
    /// beyond it, each channel clamped at 255.
    pub fn radial_blend(&mut self, cx: i32, cy: i32, radius: u32, color: Rgb)
        requires
            old(self)@.wf(),
        ensures
            old(self)@.blended(final(self)@, cx as int, cy as int, radius as int, color),
    {
        proof {
            assert(radius * radius < 0x1_0000_0000_0000_0000) by (nonlinear_arith)
                requires
                    radius < 0x1_0000_0000,
            ;
        }
        let r2: u128 = (radius as u128) * (radius as u128);
        let ghost before = self@;
        let mut j: i32 = 0;
        while j < self.height
            invariant
                self@.wf(),
                before.same_size(self@),
                self.width == before.width,
                self.height == before.height,
                r2 == radius * radius,
                r2 < 0x1_0000_0000_0000_0000,
                0 <= j <= self.height,
                forall|x: int, y: int|
                    before.in_bounds(x, y) ==> #[trigger] self@.pixel(x, y) == if y < j {
                        blend_pixel(before.pixel(x, y), color, dist2(x, y, cx as int, cy as int), r2 as int)
                    } else {
                        before.pixel(x, y)
                    },
            decreases self.height - j,
        {
            let mut i: i32 = 0;
            while i < self.width
                invariant
                    self@.wf(),
                    before.same_size(self@),
                    self.width == before.width,
                    self.height == before.height,
                    r2 == radius * radius,
                    r2 < 0x1_0000_0000_0000_0000,
                    0 <= j < self.height,
                    0 <= i <= self.width,
                    forall|x: int, y: int|
                        before.in_bounds(x, y) ==> #[trigger] self@.pixel(x, y) == if y < j || (y == j
                            && x < i) {
                            blend_pixel(before.pixel(x, y), color, dist2(x, y, cx as int, cy as int), r2 as int)
                        } else {
                            before.pixel(x, y)
                        },
                decreases self.width - i,
            {
                let cur = self.pixel(i, j);
                let d2 = distance2(i, j, cx, cy);
                let new = Rgb {
                    r: blend_channel_exec(cur.r, color.r, d2, r2),
                    g: blend_channel_exec(cur.g, color.g, d2, r2),
                    b: blend_channel_exec(cur.b, color.b, d2, r2),
                };
                self.set_pixel(i, j, new);
                i = i + 1;
            }
            j = j + 1;
        }
    }
}

} // verus!
