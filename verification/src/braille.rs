//! The dot-matrix canvas.
//!
//! A `BrailleGrid` is a rectangle of terminal character cells, each of which
//! holds eight binary dots (two across, four down) and an optional color.
//! A cell's dot pattern is one byte; the rendered character is the Unicode
//! Braille Pattern at code point `0x2800 + pattern`, which makes the packing
//! bit-exact with the Braille block convention:
//!
//! ```text
//! bit 0 -> (0,0)   bit 3 -> (1,0)
//! bit 1 -> (0,1)   bit 4 -> (1,1)
//! bit 2 -> (0,2)   bit 5 -> (1,2)
//! bit 6 -> (0,3)   bit 7 -> (1,3)
//! ```

use vstd::prelude::*;

verus! {

/// A 24-bit RGB color.
#[derive(Clone, Copy, Debug, PartialEq, Eq, Structural)]
pub struct Color {
    pub r: u8,
    pub g: u8,
    pub b: u8,
}

impl Color {
    pub fn new(r: u8, g: u8, b: u8) -> (c: Color)
        ensures
            c == (Color { r, g, b }),
    {
        Color { r, g, b }
    }
}

/// The bit position that a dot offset within its 2x4 cell block occupies,
/// following the Unicode Braille Patterns convention.
pub open spec fn braille_bit(dx: int, dy: int) -> u8 {
    if dx == 0 {
        if dy == 0 {
            0
        } else if dy == 1 {
            1
        } else if dy == 2 {
            2
        } else {
            6
        }
    } else {
        if dy == 0 {
            3
        } else if dy == 1 {
            4
        } else if dy == 2 {
            5
        } else {
            7
        }
    }
}

/// Whether a pattern byte has the dot at block offset `(dx, dy)`.
pub open spec fn pattern_has_dot(p: u8, dx: int, dy: int) -> bool {
    p & (1u8 << braille_bit(dx, dy)) != 0
}

/// The pattern byte with exactly the dot at block offset `(dx, dy)`.
pub open spec fn dot_mask(dx: int, dy: int) -> u8 {
    1u8 << braille_bit(dx, dy)
}

/// The code point of the glyph that renders a pattern byte.
pub open spec fn glyph_code(p: u8) -> u32 {
    (0x2800 + p) as u32
}

/// Whether a row-major `w x h` sheet of pattern bytes has the dot at dot
/// coordinate `(x, y)`.
pub open spec fn patterns_dot(patterns: Seq<u8>, w: int, h: int, x: int, y: int) -> bool {
    &&& 0 <= x < 2 * w
    &&& 0 <= y < 4 * h
    &&& pattern_has_dot(patterns[(y / 4) * w + x / 2], x % 2, y % 4)
}

/// A row-major cell index stays inside a `w x h` grid.
pub(crate) proof fn lemma_cell_index_bounds(w: int, h: int, cx: int, cy: int)
    by (nonlinear_arith)
    requires
        0 <= cx < w,
        0 <= cy < h,
    ensures
        0 <= cy * w + cx < w * h,
{
}

/// Distinct in-bounds cells have distinct row-major indices.
proof fn lemma_cell_index_injective(w: int, cx1: int, cy1: int, cx2: int, cy2: int)
    by (nonlinear_arith)
    requires
        0 <= cx1 < w,
        0 <= cx2 < w,
        cy1 * w + cx1 == cy2 * w + cx2,
    ensures
        cx1 == cx2 && cy1 == cy2,
{
}

/// OR-ing one dot's mask into a pattern sets that dot and leaves every other
/// dot of the byte as it was.
proof fn lemma_or_mask_bit(p: u8, b: u8, c: u8)
    by (bit_vector)
    requires
        b < 8,
        c < 8,
    ensures
        ((p | (1u8 << b)) & (1u8 << c) != 0) == ((p & (1u8 << c) != 0) || b == c),
{
}

/// The block-offset-to-bit table is injective over the eight offsets.
proof fn lemma_braille_bit_injective(dx1: int, dy1: int, dx2: int, dy2: int)
    requires
        0 <= dx1 < 2,
        0 <= dy1 < 4,
        0 <= dx2 < 2,
        0 <= dy2 < 4,
        braille_bit(dx1, dy1) == braille_bit(dx2, dy2),
    ensures
        dx1 == dx2 && dy1 == dy2,
{
}

/// A canvas of `width x height` terminal cells, `2*width x 4*height` dots.
pub struct BrailleGrid {
    width: usize,
    height: usize,
    patterns: Vec<u8>,
    colors: Vec<Option<Color>>,
}

impl BrailleGrid {
    /// Width in cells.
    pub closed spec fn spec_width(&self) -> int {
        self.width as int
    }

    /// Height in cells.
    pub closed spec fn spec_height(&self) -> int {
        self.height as int
    }

    /// The per-cell pattern bytes, row-major.
    pub closed spec fn patterns_seq(&self) -> Seq<u8> {
        self.patterns@
    }

    /// The per-cell colors, row-major.
    pub closed spec fn colors_seq(&self) -> Seq<Option<Color>> {
        self.colors@
    }

    pub open spec fn wf(&self) -> bool {
        &&& self.patterns_seq().len() == self.spec_width() * self.spec_height()
        &&& self.colors_seq().len() == self.spec_width() * self.spec_height()
        &&& self.spec_width() * self.spec_height() <= usize::MAX
        &&& 2 * self.spec_width() <= usize::MAX
        &&& 4 * self.spec_height() <= usize::MAX
    }

    /// Width in dots.
    pub open spec fn spec_dot_width(&self) -> int {
        2 * self.spec_width()
    }

    /// Height in dots.
    pub open spec fn spec_dot_height(&self) -> int {
        4 * self.spec_height()
    }

    /// Row-major index of cell `(cx, cy)`.
    pub open spec fn cell_index(&self, cx: int, cy: int) -> int {
        cy * self.spec_width() + cx
    }

    /// The pattern byte of cell `(cx, cy)`.
    pub open spec fn spec_pattern(&self, cx: int, cy: int) -> u8 {
        self.patterns_seq()[self.cell_index(cx, cy)]
    }

    /// The color of cell `(cx, cy)`.
    pub open spec fn spec_color(&self, cx: int, cy: int) -> Option<Color> {
        self.colors_seq()[self.cell_index(cx, cy)]
    }

    /// Whether the dot at dot coordinate `(x, y)` is set.
    pub open spec fn spec_dot(&self, x: int, y: int) -> bool {
        patterns_dot(self.patterns_seq(), self.spec_width(), self.spec_height(), x, y)
    }

    /// Create an empty canvas of `width x height` cells.
    pub fn new(width: usize, height: usize) -> (g: BrailleGrid)
        requires
            width * height <= usize::MAX,
            2 * width <= usize::MAX,
            4 * height <= usize::MAX,
        ensures
            g.wf(),
            g.spec_width() == width,
            g.spec_height() == height,
            forall|i: int| 0 <= i < width * height ==> g.patterns_seq()[i] == 0,
            forall|i: int| 0 <= i < width * height ==> g.colors_seq()[i] is None,
            forall|x: int, y: int| !g.spec_dot(x, y),
    {
        let cells = width * height;
        let g = BrailleGrid {
            width,
            height,
            patterns: vec![0u8; cells],
            colors: vec![None; cells],
        };
        proof {
            assert forall|x: int, y: int| !g.spec_dot(x, y) by {
                if 0 <= x < g.spec_dot_width() && 0 <= y < g.spec_dot_height() {
                    lemma_cell_index_bounds(g.spec_width(), g.spec_height(), x / 2, y / 4);
                    let b = braille_bit(x % 2, y % 4);
                    assert(b < 8);
                    assert(0u8 & (1u8 << b) == 0) by (bit_vector)
                        requires
                            b < 8,
                    ;
                }
            }
        }
        g
    }

    /// Width in cells.
    pub fn width(&self) -> (r: usize)
        ensures
            r == self.spec_width(),
    {
        self.width
    }

    /// Height in cells.
    pub fn height(&self) -> (r: usize)
        ensures
            r == self.spec_height(),
    {
        self.height
    }

    /// Width in dots.
    pub fn dot_width(&self) -> (r: usize)
        requires
            self.wf(),
        ensures
            r == self.spec_dot_width(),
    {
        2 * self.width
    }

    /// Height in dots.
    pub fn dot_height(&self) -> (r: usize)
        requires
            self.wf(),
        ensures
            r == self.spec_dot_height(),
    {
        4 * self.height
    }

    /// Set the dot at dot coordinate `(x, y)`, keeping every other dot.
    /// Coordinates outside the canvas are ignored.
    pub fn set_dot(&mut self, x: usize, y: usize)
        requires
            old(self).wf(),
        ensures
            final(self).wf(),
            final(self).spec_width() == old(self).spec_width(),
            final(self).spec_height() == old(self).spec_height(),
            final(self).colors_seq() == old(self).colors_seq(),
            x < old(self).spec_dot_width() && y < old(self).spec_dot_height()
                ==> final(self).patterns_seq() == old(self).patterns_seq().update(
                    old(self).cell_index(x as int / 2, y as int / 4),
                    old(self).spec_pattern(x as int / 2, y as int / 4)
                        | dot_mask(x as int % 2, y as int % 4),
                ),
            !(x < old(self).spec_dot_width() && y < old(self).spec_dot_height())
                ==> final(self).patterns_seq() == old(self).patterns_seq(),
            forall|i: int, j: int|
                final(self).spec_dot(i, j) == (old(self).spec_dot(i, j) || (i == x && j == y
                    && x < old(self).spec_dot_width() && y < old(self).spec_dot_height())),
    {
        if x < self.dot_width() && y < self.dot_height() {
            let cx = x / 2;
            let cy = y / 4;
            proof {
                lemma_cell_index_bounds(
                    self.spec_width(),
                    self.spec_height(),
                    cx as int,
                    cy as int,
                );
            }
            let ci = cy * self.width + cx;
            let bx = x % 2;
            let by = y % 4;
            let bit: u8 = if bx == 0 {
                if by == 0 {
                    0
                } else if by == 1 {
                    1
                } else if by == 2 {
                    2
                } else {
                    6
                }
            } else {
                if by == 0 {
                    3
                } else if by == 1 {
                    4
                } else if by == 2 {
                    5
                } else {
                    7
                }
            };
            let p = self.patterns[ci];
            self.patterns.set(ci, p | (1u8 << bit));
            proof {
                lemma_set_dot_effect(*old(self), *self, x as int, y as int);
            }
        }
    }

    /// Set the dot at `(x, y)` and record `color` as its cell's color,
    /// overwriting whatever color the cell had (last write wins per cell).
    /// Coordinates outside the canvas are ignored.
    pub fn set_dot_with_color(&mut self, x: usize, y: usize, color: Color)
        requires
            old(self).wf(),
        ensures
            final(self).wf(),
            final(self).spec_width() == old(self).spec_width(),
            final(self).spec_height() == old(self).spec_height(),
            x < old(self).spec_dot_width() && y < old(self).spec_dot_height()
                ==> final(self).patterns_seq() == old(self).patterns_seq().update(
                    old(self).cell_index(x as int / 2, y as int / 4),
                    old(self).spec_pattern(x as int / 2, y as int / 4)
                        | dot_mask(x as int % 2, y as int % 4),
                ),
            x < old(self).spec_dot_width() && y < old(self).spec_dot_height()
                ==> final(self).colors_seq() == old(self).colors_seq().update(
                    old(self).cell_index(x as int / 2, y as int / 4),
                    Some(color),
                ),
            !(x < old(self).spec_dot_width() && y < old(self).spec_dot_height())
                ==> final(self).patterns_seq() == old(self).patterns_seq()
                    && final(self).colors_seq() == old(self).colors_seq(),
            forall|i: int, j: int|
                final(self).spec_dot(i, j) == (old(self).spec_dot(i, j) || (i == x && j == y
                    && x < old(self).spec_dot_width() && y < old(self).spec_dot_height())),
    {
        if x < self.dot_width() && y < self.dot_height() {
            self.set_dot(x, y);
            let cx = x / 2;
            let cy = y / 4;
            proof {
                lemma_cell_index_bounds(
                    self.spec_width(),
                    self.spec_height(),
                    cx as int,
                    cy as int,
                );
            }
            let ci = cy * self.width + cx;
            self.colors.set(ci, Some(color));
            proof {
                lemma_set_dot_effect(*old(self), *self, x as int, y as int);
            }
        }
    }

    /// Reset every cell to the empty pattern and no color.
    pub fn clear(&mut self)
        requires
            old(self).wf(),
        ensures
            final(self).wf(),
            final(self).spec_width() == old(self).spec_width(),
            final(self).spec_height() == old(self).spec_height(),
            forall|i: int|
                0 <= i < final(self).patterns_seq().len() ==> final(self).patterns_seq()[i] == 0,
            forall|i: int|
                0 <= i < final(self).colors_seq().len() ==> final(self).colors_seq()[i] is None,
            forall|i: int, j: int| !final(self).spec_dot(i, j),
    {
        let cells = self.width * self.height;
        self.patterns = vec![0u8; cells];
        self.colors = vec![None; cells];
        proof {
            assert forall|i: int, j: int| !self.spec_dot(i, j) by {
                if 0 <= i < self.spec_dot_width() && 0 <= j < self.spec_dot_height() {
                    lemma_cell_index_bounds(
                        self.spec_width(),
                        self.spec_height(),
                        i / 2,
                        j / 4,
                    );
                    let b = braille_bit(i % 2, j % 4);
                    assert(b < 8);
                    assert(0u8 & (1u8 << b) == 0) by (bit_vector)
                        requires
                            b < 8,
                    ;
                }
            }
        }
    }

    /// The Braille glyph of cell `(x, y)`: code point `0x2800 + pattern`.
    pub fn get_char(&self, x: usize, y: usize) -> (c: char)
        requires
            self.wf(),
            x < self.spec_width(),
            y < self.spec_height(),
        ensures
            c as u32 == glyph_code(self.spec_pattern(x as int, y as int)),
    {
        proof {
            lemma_cell_index_bounds(self.spec_width(), self.spec_height(), x as int, y as int);
        }
        let ci = y * self.width + x;
        let p = self.patterns[ci];
        char_from_code(0x2800u32 + p as u32)
    }

    /// The color last written to cell `(x, y)`, if any.
    pub fn get_color(&self, x: usize, y: usize) -> (c: Option<Color>)
        requires
            self.wf(),
            x < self.spec_width(),
            y < self.spec_height(),
        ensures
            c == self.spec_color(x as int, y as int),
    {
        proof {
            lemma_cell_index_bounds(self.spec_width(), self.spec_height(), x as int, y as int);
        }
        let ci = y * self.width + x;
        self.colors[ci]
    }

    /// Rasterize a line of dots from `(x0, y0)` to `(x1, y1)`, coloring every
    /// cell the line touches. Sample points step evenly along the longer
    /// axis, one dot per step, so consecutive dots are at most one apart on
    /// each axis and the path has no gaps.
    pub fn draw_line_with_color(
        &mut self,
        x0: usize,
        y0: usize,
        x1: usize,
        y1: usize,
        color: Color,
    )
        requires
            old(self).wf(),
            x0 < old(self).spec_dot_width(),
            x1 < old(self).spec_dot_width(),
            y0 < old(self).spec_dot_height(),
            y1 < old(self).spec_dot_height(),
        ensures
            final(self).wf(),
            final(self).spec_width() == old(self).spec_width(),
            final(self).spec_height() == old(self).spec_height(),
            forall|i: int, j: int|
                final(self).spec_dot(i, j) == (old(self).spec_dot(i, j) || on_line(
                    x0 as int,
                    y0 as int,
                    x1 as int,
                    y1 as int,
                    i,
                    j,
                )),
            forall|cx: int, cy: int|
                0 <= cx < old(self).spec_width() && 0 <= cy < old(self).spec_height()
                    ==> final(self).spec_color(cx, cy) == (if line_meets_cell(
                    x0 as int,
                    y0 as int,
                    x1 as int,
                    y1 as int,
                    cx,
                    cy,
                ) {
                    Some(color)
                } else {
                    old(self).spec_color(cx, cy)
                }),
    {
        let ghost gx0 = x0 as int;
        let ghost gy0 = y0 as int;
        let ghost gx1 = x1 as int;
        let ghost gy1 = y1 as int;
        let adx = if x1 >= x0 {
            x1 - x0
        } else {
            x0 - x1
        };
        let ady = if y1 >= y0 {
            y1 - y0
        } else {
            y0 - y1
        };
        let steps = if adx >= ady {
            adx
        } else {
            ady
        };
        assert(steps == line_steps(gx0, gy0, gx1, gy1));
        if steps == 0 {
            self.set_dot_with_color(x0, y0, color);
            proof {
                let ghost pre = *old(self);
                lemma_set_color_effect(pre, *self, gx0, gy0, color);
                assert(line_point(gx0, gy0, gx1, gy1, 0) == (gx0, gy0));
                assert forall|i: int, j: int|
                    self.spec_dot(i, j) == (old(self).spec_dot(i, j) || on_line(
                        gx0,
                        gy0,
                        gx1,
                        gy1,
                        i,
                        j,
                    )) by {
                    if i == gx0 && j == gy0 {
                        assert(on_line(gx0, gy0, gx1, gy1, i, j));
                    } else if on_line(gx0, gy0, gx1, gy1, i, j) {
                        let t = choose|t: int|
                            0 <= t < 1 && #[trigger] line_point(gx0, gy0, gx1, gy1, t) == (i, j);
                        assert(false);
                    }
                }
                assert forall|cx: int, cy: int|
                    0 <= cx < old(self).spec_width() && 0 <= cy < old(self).spec_height()
                        implies self.spec_color(cx, cy) == (if line_meets_cell(
                        gx0,
                        gy0,
                        gx1,
                        gy1,
                        cx,
                        cy,
                    ) {
                        Some(color)
                    } else {
                        old(self).spec_color(cx, cy)
                    }) by {
                    if cx == gx0 / 2 && cy == gy0 / 4 {
                        assert(line_point(gx0, gy0, gx1, gy1, 0).0 / 2 == cx);
                        assert(line_meets_cell(gx0, gy0, gx1, gy1, cx, cy));
                    } else if line_meets_cell(gx0, gy0, gx1, gy1, cx, cy) {
                        let t = choose|t: int|
                            0 <= t < 1 && #[trigger] line_point(gx0, gy0, gx1, gy1, t).0 / 2 == cx
                                && line_point(gx0, gy0, gx1, gy1, t).1 / 4 == cy;
                        assert(false);
                    }
                }
            }
            return ;
        }
        let mut k: usize = 0;
        while k <= steps
            invariant
                self.wf(),
                self.spec_width() == old(self).spec_width(),
                self.spec_height() == old(self).spec_height(),
                gx0 == x0 as int,
                gy0 == y0 as int,
                gx1 == x1 as int,
                gy1 == y1 as int,
                steps == line_steps(gx0, gy0, gx1, gy1),
                steps > 0,
                steps < usize::MAX,
                x0 < self.spec_dot_width(),
                x1 < self.spec_dot_width(),
                y0 < self.spec_dot_height(),
                y1 < self.spec_dot_height(),
                x1 >= x0 ==> x1 - x0 <= steps,
                x0 > x1 ==> x0 - x1 <= steps,
                y1 >= y0 ==> y1 - y0 <= steps,
                y0 > y1 ==> y0 - y1 <= steps,
                k <= steps + 1,
                forall|i: int, j: int|
                    self.spec_dot(i, j) == (old(self).spec_dot(i, j) || on_line_prefix(
                        gx0,
                        gy0,
                        gx1,
                        gy1,
                        k as int,
                        i,
                        j,
                    )),
                forall|cx: int, cy: int|
                    0 <= cx < old(self).spec_width() && 0 <= cy < old(self).spec_height()
                        ==> self.spec_color(cx, cy) == (if line_meets_cell_prefix(
                        gx0,
                        gy0,
                        gx1,
                        gy1,
                        k as int,
                        cx,
                        cy,
                    ) {
                        Some(color)
                    } else {
                        old(self).spec_color(cx, cy)
                    }),
            decreases steps + 1 - k,
        {
            let px = axis_point_exec(x0, x1, k, steps);
            let py = axis_point_exec(y0, y1, k, steps);
            let ghost pre = *self;
            self.set_dot_with_color(px, py, color);
            proof {
                assert(line_point(gx0, gy0, gx1, gy1, k as int) == (px as int, py as int));
                lemma_set_color_effect(pre, *self, px as int, py as int, color);
                assert forall|i: int, j: int|
                    self.spec_dot(i, j) == (old(self).spec_dot(i, j) || on_line_prefix(
                        gx0,
                        gy0,
                        gx1,
                        gy1,
                        k + 1,
                        i,
                        j,
                    )) by {
                    if i == px && j == py {
                        assert(on_line_prefix(gx0, gy0, gx1, gy1, k + 1, i, j));
                    } else {
                        if on_line_prefix(gx0, gy0, gx1, gy1, k + 1, i, j) {
                            let t = choose|t: int|
                                0 <= t < k + 1 && #[trigger] line_point(gx0, gy0, gx1, gy1, t) == (
                                i,
                                j,
                            );
                            assert(t < k);
                            assert(on_line_prefix(gx0, gy0, gx1, gy1, k as int, i, j));
                        }
                        if on_line_prefix(gx0, gy0, gx1, gy1, k as int, i, j) {
                            let t = choose|t: int|
                                0 <= t < k && #[trigger] line_point(gx0, gy0, gx1, gy1, t) == (
                                i,
                                j,
                            );
                            assert(on_line_prefix(gx0, gy0, gx1, gy1, k + 1, i, j));
                        }
                    }
                }
                assert forall|cx: int, cy: int|
                    0 <= cx < old(self).spec_width() && 0 <= cy < old(self).spec_height()
                        implies self.spec_color(cx, cy) == (if line_meets_cell_prefix(
                        gx0,
                        gy0,
                        gx1,
                        gy1,
                        k + 1,
                        cx,
                        cy,
                    ) {
                        Some(color)
                    } else {
                        old(self).spec_color(cx, cy)
                    }) by {
                    if cx == px as int / 2 && cy == py as int / 4 {
                        assert(line_point(gx0, gy0, gx1, gy1, k as int).0 / 2 == cx
                            && line_point(gx0, gy0, gx1, gy1, k as int).1 / 4 == cy);
                        assert(line_meets_cell_prefix(gx0, gy0, gx1, gy1, k + 1, cx, cy));
                    } else {
                        if line_meets_cell_prefix(gx0, gy0, gx1, gy1, k + 1, cx, cy) {
                            let t = choose|t: int|
                                0 <= t < k + 1 && #[trigger] line_point(
                                    gx0,
                                    gy0,
                                    gx1,
                                    gy1,
                                    t,
                                ).0 / 2 == cx && line_point(gx0, gy0, gx1, gy1, t).1 / 4 == cy;
                            assert(t < k);
                            assert(line_meets_cell_prefix(gx0, gy0, gx1, gy1, k as int, cx, cy));
                        }
                        if line_meets_cell_prefix(gx0, gy0, gx1, gy1, k as int, cx, cy) {
                            let t = choose|t: int|
                                0 <= t < k && #[trigger] line_point(gx0, gy0, gx1, gy1, t).0 / 2
                                    == cx && line_point(gx0, gy0, gx1, gy1, t).1 / 4 == cy;
                            assert(line_meets_cell_prefix(gx0, gy0, gx1, gy1, k + 1, cx, cy));
                        }
                    }
                }
            }
            k = k + 1;
        }
    }

    /// Set every dot of cell `(cx, cy)` that the pattern byte `p` has.
    pub(crate) fn apply_cell(&mut self, p: u8, cx: usize, cy: usize)
        requires
            old(self).wf(),
            cx < old(self).spec_width(),
            cy < old(self).spec_height(),
        ensures
            final(self).wf(),
            final(self).spec_width() == old(self).spec_width(),
            final(self).spec_height() == old(self).spec_height(),
            final(self).colors_seq() == old(self).colors_seq(),
            forall|i: int, j: int|
                final(self).spec_dot(i, j) == (old(self).spec_dot(i, j) || (i / 2 == cx && j / 4
                    == cy && 0 <= i && 0 <= j && pattern_has_dot(p, i % 2, j % 4))),
    {
        let x2 = 2 * cx;
        let y4 = 4 * cy;
        if p & (1u8 << bit_for(0, 0)) != 0 {
            self.set_dot(x2, y4);
        }
        if p & (1u8 << bit_for(0, 1)) != 0 {
            self.set_dot(x2, y4 + 1);
        }
        if p & (1u8 << bit_for(0, 2)) != 0 {
            self.set_dot(x2, y4 + 2);
        }
        if p & (1u8 << bit_for(0, 3)) != 0 {
            self.set_dot(x2, y4 + 3);
        }
        if p & (1u8 << bit_for(1, 0)) != 0 {
            self.set_dot(x2 + 1, y4);
        }
        if p & (1u8 << bit_for(1, 1)) != 0 {
            self.set_dot(x2 + 1, y4 + 1);
        }
        if p & (1u8 << bit_for(1, 2)) != 0 {
            self.set_dot(x2 + 1, y4 + 2);
        }
        if p & (1u8 << bit_for(1, 3)) != 0 {
            self.set_dot(x2 + 1, y4 + 3);
        }
        proof {
            assert forall|i: int, j: int|
                self.spec_dot(i, j) == (old(self).spec_dot(i, j) || (i / 2 == cx && j / 4 == cy
                    && 0 <= i && 0 <= j && pattern_has_dot(p, i % 2, j % 4))) by {
                if 0 <= i && 0 <= j && i / 2 == cx && j / 4 == cy {
                    vstd::arithmetic::div_mod::lemma_fundamental_div_mod(i, 2);
                    vstd::arithmetic::div_mod::lemma_fundamental_div_mod(j, 4);
                }
            }
        }
    }

    /// OR a row-major `fw x fh` sheet of cell patterns into this canvas,
    /// clipped to the canvas size. Colors are left alone.
    pub(crate) fn apply_cell_patterns(&mut self, patterns: &Vec<u8>, fw: usize, fh: usize)
        requires
            old(self).wf(),
            patterns@.len() == fw * fh,
            fw * fh <= usize::MAX,
        ensures
            final(self).wf(),
            final(self).spec_width() == old(self).spec_width(),
            final(self).spec_height() == old(self).spec_height(),
            final(self).colors_seq() == old(self).colors_seq(),
            forall|i: int, j: int|
                final(self).spec_dot(i, j) == (old(self).spec_dot(i, j) || (patterns_dot(
                    patterns@,
                    fw as int,
                    fh as int,
                    i,
                    j,
                ) && i < old(self).spec_dot_width() && j < old(self).spec_dot_height())),
    {
        let gw = self.width();
        let gh = self.height();
        let w = if fw < gw {
            fw
        } else {
            gw
        };
        let h = if fh < gh {
            fh
        } else {
            gh
        };
        let mut cy: usize = 0;
        while cy < h
            invariant
                self.wf(),
                self.spec_width() == old(self).spec_width(),
                self.spec_height() == old(self).spec_height(),
                self.colors_seq() == old(self).colors_seq(),
                gw == old(self).spec_width(),
                gh == old(self).spec_height(),
                w <= fw,
                w <= gw,
                w == fw || w == gw,
                h <= fh,
                h <= gh,
                h == fh || h == gh,
                patterns@.len() == fw * fh,
                fw * fh <= usize::MAX,
                cy <= h,
                forall|i: int, j: int|
                    self.spec_dot(i, j) == (old(self).spec_dot(i, j) || (patterns_dot(
                        patterns@,
                        fw as int,
                        fh as int,
                        i,
                        j,
                    ) && i < old(self).spec_dot_width() && j < old(self).spec_dot_height() && j / 4
                        < cy)),
            decreases h - cy,
        {
            let mut cx: usize = 0;
            while cx < w
                invariant
                    self.wf(),
                    self.spec_width() == old(self).spec_width(),
                    self.spec_height() == old(self).spec_height(),
                    self.colors_seq() == old(self).colors_seq(),
                    gw == old(self).spec_width(),
                    gh == old(self).spec_height(),
                    w <= fw,
                    w <= gw,
                    w == fw || w == gw,
                    h <= fh,
                    h <= gh,
                    h == fh || h == gh,
                    patterns@.len() == fw * fh,
                    fw * fh <= usize::MAX,
                    cy < h,
                    cx <= w,
                    forall|i: int, j: int|
                        self.spec_dot(i, j) == (old(self).spec_dot(i, j) || (patterns_dot(
                            patterns@,
                            fw as int,
                            fh as int,
                            i,
                            j,
                        ) && i < old(self).spec_dot_width() && j < old(self).spec_dot_height() && (
                        j / 4 < cy || (j / 4 == cy && i / 2 < cx)))),
                decreases w - cx,
            {
                proof {
                    lemma_cell_index_bounds(fw as int, fh as int, cx as int, cy as int);
                }
                let pi = cy * fw + cx;
                let p = patterns[pi];
                let ghost pre = *self;
                self.apply_cell(p, cx, cy);
                proof {
                    assert forall|i: int, j: int|
                        self.spec_dot(i, j) == (old(self).spec_dot(i, j) || (patterns_dot(
                            patterns@,
                            fw as int,
                            fh as int,
                            i,
                            j,
                        ) && i < old(self).spec_dot_width() && j < old(self).spec_dot_height() && (
                        j / 4 < cy || (j / 4 == cy && i / 2 < cx + 1)))) by {
                        if 0 <= i && 0 <= j && i / 2 == cx && j / 4 == cy {
                            vstd::arithmetic::div_mod::lemma_fundamental_div_mod(i, 2);
                            vstd::arithmetic::div_mod::lemma_fundamental_div_mod(j, 4);
                        }
                    }
                }
                cx = cx + 1;
            }
            proof {
                assert forall|i: int, j: int|
                    self.spec_dot(i, j) == (old(self).spec_dot(i, j) || (patterns_dot(
                        patterns@,
                        fw as int,
                        fh as int,
                        i,
                        j,
                    ) && i < old(self).spec_dot_width() && j < old(self).spec_dot_height() && j / 4
                        < cy + 1)) by {
                    if patterns_dot(patterns@, fw as int, fh as int, i, j) && i < old(
                        self,
                    ).spec_dot_width() && j < old(self).spec_dot_height() && j / 4 == cy {
                        assert(i / 2 < w);
                    }
                }
            }
            cy = cy + 1;
        }
        proof {
            assert forall|i: int, j: int|
                self.spec_dot(i, j) == (old(self).spec_dot(i, j) || (patterns_dot(
                    patterns@,
                    fw as int,
                    fh as int,
                    i,
                    j,
                ) && i < old(self).spec_dot_width() && j < old(self).spec_dot_height())) by {
                if patterns_dot(patterns@, fw as int, fh as int, i, j) && i < old(
                    self,
                ).spec_dot_width() && j < old(self).spec_dot_height() {
                    assert(j / 4 < h);
                }
            }
        }
    }

    /// Whether cell `(x, y)` has no dots.
    pub fn is_empty(&self, x: usize, y: usize) -> (r: bool)
        requires
            self.wf(),
            x < self.spec_width(),
            y < self.spec_height(),
        ensures
            r == (self.spec_pattern(x as int, y as int) == 0),
    {
        proof {
            lemma_cell_index_bounds(self.spec_width(), self.spec_height(), x as int, y as int);
        }
        let ci = y * self.width + x;
        self.patterns[ci] == 0
    }
}

/// The number of even steps the line rasterizer takes between the endpoints:
/// the larger of the two absolute coordinate differences. The line covers
/// `line_steps + 1` sample points.
pub open spec fn line_steps(x0: int, y0: int, x1: int, y1: int) -> int {
    let adx = if x1 >= x0 {
        x1 - x0
    } else {
        x0 - x1
    };
    let ady = if y1 >= y0 {
        y1 - y0
    } else {
        y0 - y1
    };
    if adx >= ady {
        adx
    } else {
        ady
    }
}

/// Position along one axis after `i` of `steps` even steps from `a0` towards
/// `a1`: `a0` plus `i * |a1 - a0| / steps` rounded to the nearest integer,
/// in the direction of `a1`.
pub open spec fn axis_point(a0: int, a1: int, i: int, steps: int) -> int {
    if steps == 0 {
        a0
    } else if a1 >= a0 {
        a0 + (i * (a1 - a0) + steps / 2) / steps
    } else {
        a0 - (i * (a0 - a1) + steps / 2) / steps
    }
}

/// The `i`-th sample point of the line from `(x0, y0)` to `(x1, y1)`.
pub open spec fn line_point(x0: int, y0: int, x1: int, y1: int, i: int) -> (int, int) {
    (
        axis_point(x0, x1, i, line_steps(x0, y0, x1, y1)),
        axis_point(y0, y1, i, line_steps(x0, y0, x1, y1)),
    )
}

/// Whether `(a, b)` is one of the first `k` sample points of the line.
pub open spec fn on_line_prefix(
    x0: int,
    y0: int,
    x1: int,
    y1: int,
    k: int,
    a: int,
    b: int,
) -> bool {
    exists|i: int| 0 <= i < k && #[trigger] line_point(x0, y0, x1, y1, i) == (a, b)
}

/// Whether `(a, b)` is one of the line's sample points.
pub open spec fn on_line(x0: int, y0: int, x1: int, y1: int, a: int, b: int) -> bool {
    on_line_prefix(x0, y0, x1, y1, line_steps(x0, y0, x1, y1) + 1, a, b)
}

/// Whether one of the first `k` sample points falls in cell `(cx, cy)`.
pub open spec fn line_meets_cell_prefix(
    x0: int,
    y0: int,
    x1: int,
    y1: int,
    k: int,
    cx: int,
    cy: int,
) -> bool {
    exists|i: int|
        0 <= i < k && #[trigger] line_point(x0, y0, x1, y1, i).0 / 2 == cx && line_point(
            x0,
            y0,
            x1,
            y1,
            i,
        ).1 / 4 == cy
}

/// Whether some sample point of the line falls in cell `(cx, cy)`.
pub open spec fn line_meets_cell(
    x0: int,
    y0: int,
    x1: int,
    y1: int,
    cx: int,
    cy: int,
) -> bool {
    line_meets_cell_prefix(x0, y0, x1, y1, line_steps(x0, y0, x1, y1) + 1, cx, cy)
}

/// One axis coordinate of the `i`-th line sample, computed exactly.
fn axis_point_exec(a0: usize, a1: usize, i: usize, steps: usize) -> (r: usize)
    requires
        steps > 0,
        i <= steps,
        a1 >= a0 ==> a1 - a0 <= steps,
        a0 > a1 ==> a0 - a1 <= steps,
    ensures
        r == axis_point(a0 as int, a1 as int, i as int, steps as int),
        a1 >= a0 ==> a0 <= r <= a1,
        a0 > a1 ==> a1 <= r <= a0,
{
    let half = steps / 2;
    if a1 >= a0 {
        let d = a1 - a0;
        proof {
            lemma_axis_offset_bounds(d as int, i as int, steps as int);
        }
        proof {
            assert((i as int) * (d as int) + (half as int) < u128::MAX) by (nonlinear_arith)
                requires
                    0 <= i <= 0xffff_ffff_ffff_ffff,
                    0 <= d <= 0xffff_ffff_ffff_ffff,
                    0 <= half <= 0xffff_ffff_ffff_ffff,
            ;
        }
        let n: u128 = (i as u128) * (d as u128) + (half as u128);
        let off = (n / (steps as u128)) as usize;
        a0 + off
    } else {
        let d = a0 - a1;
        proof {
            lemma_axis_offset_bounds(d as int, i as int, steps as int);
        }
        proof {
            assert((i as int) * (d as int) + (half as int) < u128::MAX) by (nonlinear_arith)
                requires
                    0 <= i <= 0xffff_ffff_ffff_ffff,
                    0 <= d <= 0xffff_ffff_ffff_ffff,
                    0 <= half <= 0xffff_ffff_ffff_ffff,
            ;
        }
        let n: u128 = (i as u128) * (d as u128) + (half as u128);
        let off = (n / (steps as u128)) as usize;
        a0 - off
    }
}

/// The rounded interpolation offset never passes the axis difference.
proof fn lemma_axis_offset_bounds(d: int, i: int, steps: int)
    requires
        0 < steps,
        0 <= i <= steps,
        0 <= d <= steps,
    ensures
        0 <= (i * d + steps / 2) / steps <= d,
        i * d + steps / 2 < steps * (d + 1),
{
    let h = steps / 2;
    let n = i * d + h;
    vstd::arithmetic::mul::lemma_mul_inequality(i, steps, d);
    assert(h < steps);
    assert(steps * d + h < steps * (d + 1)) by (nonlinear_arith)
        requires
            h < steps,
    ;
    vstd::arithmetic::div_mod::lemma_multiply_divide_lt(n, steps, d + 1);
    vstd::arithmetic::div_mod::lemma_div_pos_is_pos(n, steps);
}

/// One interpolation step moves an axis offset towards the far end by at
/// most one dot.
proof fn lemma_axis_offset_step(d: int, i: int, steps: int)
    requires
        0 < steps,
        0 <= i < steps,
        0 <= d <= steps,
    ensures
        (i * d + steps / 2) / steps <= ((i + 1) * d + steps / 2) / steps,
        ((i + 1) * d + steps / 2) / steps <= (i * d + steps / 2) / steps + 1,
{
    let h = steps / 2;
    assert((i + 1) * d == i * d + d) by (nonlinear_arith);
    vstd::arithmetic::div_mod::lemma_div_is_ordered(i * d + h, i * d + d + h, steps);
    vstd::arithmetic::div_mod::lemma_div_is_ordered(i * d + d + h, i * d + h + steps, steps);
    vstd::arithmetic::div_mod::lemma_div_plus_one(i * d + h, steps);
}

/// The rasterized line is connected: consecutive sample dots are at most
/// one dot apart on each axis, so the path has no gaps for any slope.
pub proof fn lemma_line_connected(x0: int, y0: int, x1: int, y1: int, i: int)
    requires
        0 <= x0,
        0 <= y0,
        0 <= x1,
        0 <= y1,
        0 <= i < line_steps(x0, y0, x1, y1),
    ensures
        line_point(x0, y0, x1, y1, i + 1).0 - line_point(x0, y0, x1, y1, i).0 <= 1,
        line_point(x0, y0, x1, y1, i).0 - line_point(x0, y0, x1, y1, i + 1).0 <= 1,
        line_point(x0, y0, x1, y1, i + 1).1 - line_point(x0, y0, x1, y1, i).1 <= 1,
        line_point(x0, y0, x1, y1, i).1 - line_point(x0, y0, x1, y1, i + 1).1 <= 1,
{
    let steps = line_steps(x0, y0, x1, y1);
    if x1 >= x0 {
        lemma_axis_offset_step(x1 - x0, i, steps);
    } else {
        lemma_axis_offset_step(x0 - x1, i, steps);
    }
    if y1 >= y0 {
        lemma_axis_offset_step(y1 - y0, i, steps);
    } else {
        lemma_axis_offset_step(y0 - y1, i, steps);
    }
}

/// The rasterized line starts and ends exactly on the requested endpoints.
pub proof fn lemma_line_endpoints(x0: int, y0: int, x1: int, y1: int)
    requires
        0 <= x0,
        0 <= y0,
        0 <= x1,
        0 <= y1,
    ensures
        line_point(x0, y0, x1, y1, 0) == (x0, y0),
        line_point(x0, y0, x1, y1, line_steps(x0, y0, x1, y1)) == (x1, y1),
{
    let steps = line_steps(x0, y0, x1, y1);
    if steps > 0 {
        lemma_axis_endpoint(x1 - x0, steps);
        lemma_axis_endpoint(x0 - x1, steps);
        lemma_axis_endpoint(y1 - y0, steps);
        lemma_axis_endpoint(y0 - y1, steps);
    }
}

/// The interpolation offset is zero at the first step and the full axis
/// difference at the last.
proof fn lemma_axis_endpoint(d: int, steps: int)
    requires
        0 < steps,
        d <= steps,
    ensures
        d >= 0 ==> (0 * d + steps / 2) / steps == 0,
        d >= 0 ==> (steps * d + steps / 2) / steps == d,
{
    if d >= 0 {
        vstd::arithmetic::div_mod::lemma_basic_div(steps / 2, steps);
        assert(0 * d == 0) by (nonlinear_arith);
        vstd::arithmetic::div_mod::lemma_fundamental_div_mod_converse_div(
            steps * d + steps / 2,
            steps,
            d,
            steps / 2,
        );
        assert(steps * d == d * steps) by (nonlinear_arith);
    }
}

/// A cell's glyph code carries the cell's dot pattern in its low byte:
/// adding the pattern to the Braille block base 0x2800 is the same as
/// OR-ing it in, so after `set_dot` the owning cell's glyph code is
/// `0x2800 | pattern | (1 << bit)` for the set dot's bit, and every further
/// dot in the cell ORs its own bit into the glyph.
pub proof fn lemma_glyph_code_bits(p: u8)
    ensures
        glyph_code(p) == 0x2800u32 | p as u32,
{
    assert((0x2800 + p) as u32 == 0x2800u32 | p as u32) by (bit_vector);
}

/// On a horizontal line drawn left to right, the `i`-th sample dot is exactly
/// `(x0 + i, y0)`: the rasterizer covers `x1 - x0 + 1` contiguous dots of one
/// row, each exactly once.
pub proof fn lemma_horizontal_line_point(x0: int, y0: int, x1: int, y1: int, i: int)
    requires
        y0 == y1,
        x0 <= x1,
        0 <= i <= line_steps(x0, y0, x1, y1),
    ensures
        line_steps(x0, y0, x1, y1) == x1 - x0,
        line_point(x0, y0, x1, y1, i) == (x0 + i, y0),
{
    let d = x1 - x0;
    if d > 0 {
        vstd::arithmetic::div_mod::lemma_fundamental_div_mod_converse_div(
            i * d + d / 2,
            d,
            i,
            d / 2,
        );
        assert(i * 0 == 0) by (nonlinear_arith);
        vstd::arithmetic::div_mod::lemma_basic_div(d / 2, d);
    }
}

/// The bit that the dot at block offset `(dx, dy)` occupies.
fn bit_for(dx: usize, dy: usize) -> (b: u8)
    requires
        dx < 2,
        dy < 4,
    ensures
        b == braille_bit(dx as int, dy as int),
        b < 8,
{
    if dx == 0 {
        if dy == 0 {
            0
        } else if dy == 1 {
            1
        } else if dy == 2 {
            2
        } else {
            6
        }
    } else {
        if dy == 0 {
            3
        } else if dy == 1 {
            4
        } else if dy == 2 {
            5
        } else {
            7
        }
    }
}

/// Relies on char::from_u32: it returns `Some` of the character with exactly
/// the given code point whenever that code point is assigned and not a
/// surrogate; the Braille Patterns block 0x2800..=0x28FF qualifies.
#[verifier::external_body]
fn char_from_code(code: u32) -> (c: char)
    requires
        0x2800 <= code <= 0x28FF,
    ensures
        c as u32 == code,
{
    char::from_u32(code).unwrap()
}

/// After overwriting one dot's cell color, exactly that cell carries the new
/// color.
proof fn lemma_set_color_effect(g1: BrailleGrid, g2: BrailleGrid, x: int, y: int, color: Color)
    requires
        g1.wf(),
        0 <= x < g1.spec_dot_width(),
        0 <= y < g1.spec_dot_height(),
        g2.spec_width() == g1.spec_width(),
        g2.spec_height() == g1.spec_height(),
        g2.colors_seq() == g1.colors_seq().update(
            g1.cell_index(x / 2, y / 4),
            Some(color),
        ),
    ensures
        forall|cx: int, cy: int|
            0 <= cx < g1.spec_width() && 0 <= cy < g1.spec_height() ==> g2.spec_color(cx, cy)
                == (if cx == x / 2 && cy == y / 4 {
                Some(color)
            } else {
                g1.spec_color(cx, cy)
            }),
{
    let w = g1.spec_width();
    let h = g1.spec_height();
    let tcx = x / 2;
    let tcy = y / 4;
    lemma_cell_index_bounds(w, h, tcx, tcy);
    assert forall|cx: int, cy: int|
        0 <= cx < w && 0 <= cy < h implies g2.spec_color(cx, cy) == (if cx == tcx && cy == tcy {
        Some(color)
    } else {
        g1.spec_color(cx, cy)
    }) by {
        lemma_cell_index_bounds(w, h, cx, cy);
        if cy * w + cx == tcy * w + tcx {
            lemma_cell_index_injective(w, cx, cy, tcx, tcy);
        }
    }
}

/// After OR-ing one dot's mask into its cell, exactly that dot is newly set.
proof fn lemma_set_dot_effect(g1: BrailleGrid, g2: BrailleGrid, x: int, y: int)
    requires
        g1.wf(),
        0 <= x < g1.spec_dot_width(),
        0 <= y < g1.spec_dot_height(),
        g2.spec_width() == g1.spec_width(),
        g2.spec_height() == g1.spec_height(),
        g2.patterns_seq() == g1.patterns_seq().update(
            g1.cell_index(x / 2, y / 4),
            g1.spec_pattern(x / 2, y / 4) | dot_mask(x % 2, y % 4),
        ),
    ensures
        forall|i: int, j: int| g2.spec_dot(i, j) == (g1.spec_dot(i, j) || (i == x && j == y)),
{
    let w = g1.spec_width();
    let h = g1.spec_height();
    let tcx = x / 2;
    let tcy = y / 4;
    lemma_cell_index_bounds(w, h, tcx, tcy);
    assert forall|i: int, j: int|
        g2.spec_dot(i, j) == (g1.spec_dot(i, j) || (i == x && j == y)) by {
        if 0 <= i < g1.spec_dot_width() && 0 <= j < g1.spec_dot_height() {
            let cx = i / 2;
            let cy = j / 4;
            lemma_cell_index_bounds(w, h, cx, cy);
            if cy * w + cx == tcy * w + tcx {
                lemma_cell_index_injective(w, cx, cy, tcx, tcy);
                lemma_or_mask_bit(
                    g1.spec_pattern(tcx, tcy),
                    braille_bit(x % 2, y % 4),
                    braille_bit(i % 2, j % 4),
                );
                if braille_bit(i % 2, j % 4) == braille_bit(x % 2, y % 4) {
                    lemma_braille_bit_injective(i % 2, j % 4, x % 2, y % 4);
                }
            }
        }
    }
}

} // verus!
