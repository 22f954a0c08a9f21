//! Conversion of grayscale raster images into Braille dot patterns.
//!
//! The sampling and thresholding logic is the library's own; decoding of
//! container formats (GIF, still images) is left to the `image` crate behind
//! narrow trusted declarations in the converter module.

pub mod converter;
pub mod pac;

use crate::braille::BrailleGrid;
use vstd::prelude::*;

verus! {

/// The source-image row that dot row `dy` samples, by nearest neighbour.
pub open spec fn sample_row(dy: int, img_h: int, dot_h: int) -> int {
    dy * img_h / dot_h
}

/// The source-image column that dot column `dx` samples, by nearest
/// neighbour.
pub open spec fn sample_col(dx: int, img_w: int, dot_w: int) -> int {
    dx * img_w / dot_w
}

/// Whether the luminance sample for dot `(dx, dy)` clears the threshold.
pub open spec fn luma_dot(
    luma: Seq<u8>,
    img_w: int,
    img_h: int,
    threshold: u8,
    dot_w: int,
    dot_h: int,
    dx: int,
    dy: int,
) -> bool {
    luma[sample_row(dy, img_h, dot_h) * img_w + sample_col(dx, img_w, dot_w)] >= threshold
}

/// Convert grayscale pixel data to Braille dots: each dot of the canvas
/// samples the image by nearest neighbour and is set when the sampled
/// luminance is at least `threshold`.
pub fn blit_luma_to_braille(
    luma: &Vec<u8>,
    img_w: usize,
    img_h: usize,
    threshold: u8,
    braille: &mut BrailleGrid,
)
    requires
        old(braille).wf(),
        luma@.len() >= img_w * img_h,
        img_w > 0,
        img_h > 0,
    ensures
        final(braille).wf(),
        final(braille).spec_width() == old(braille).spec_width(),
        final(braille).spec_height() == old(braille).spec_height(),
        final(braille).colors_seq() == old(braille).colors_seq(),
        forall|x: int, y: int|
            final(braille).spec_dot(x, y) == (old(braille).spec_dot(x, y) || (0 <= x < old(
                braille,
            ).spec_dot_width() && 0 <= y < old(braille).spec_dot_height() && luma_dot(
                luma@,
                img_w as int,
                img_h as int,
                threshold,
                old(braille).spec_dot_width(),
                old(braille).spec_dot_height(),
                x,
                y,
            ))),
{
    proof {
        vstd::std_specs::vec::axiom_spec_len(luma);
    }
    let dot_w = braille.dot_width();
    let dot_h = braille.dot_height();
    let ghost gw = dot_w as int;
    let ghost gh = dot_h as int;
    let mut dy: usize = 0;
    while dy < dot_h
        invariant
            braille.wf(),
            braille.spec_width() == old(braille).spec_width(),
            braille.spec_height() == old(braille).spec_height(),
            braille.colors_seq() == old(braille).colors_seq(),
            gw == old(braille).spec_dot_width(),
            gh == old(braille).spec_dot_height(),
            dot_w == gw,
            dot_h == gh,
            luma@.len() >= img_w * img_h,
            img_w * img_h <= usize::MAX,
            img_w > 0,
            img_h > 0,
            dy <= dot_h,
            forall|x: int, y: int|
                braille.spec_dot(x, y) == (old(braille).spec_dot(x, y) || (0 <= x < gw && 0 <= y
                    < gh && y < dy && luma_dot(
                    luma@,
                    img_w as int,
                    img_h as int,
                    threshold,
                    gw,
                    gh,
                    x,
                    y,
                ))),
        decreases dot_h - dy,
    {
        proof {
            lemma_sample_in_range(dy as int, img_h as int, gh);
        }
        proof {
            assert((dy as int) * (img_h as int) < u128::MAX) by (nonlinear_arith)
                requires
                    0 <= dy <= 0xffff_ffff_ffff_ffff,
                    0 <= img_h <= 0xffff_ffff_ffff_ffff,
            ;
        }
        let sy = ((dy as u128 * img_h as u128) / (dot_h as u128)) as usize;
        proof {
            lemma_cell_offset_bounds(sy as int, 0, img_w as int, img_h as int);
        }
        let sy_off = sy * img_w;
        let mut dx: usize = 0;
        while dx < dot_w
            invariant
                braille.wf(),
                braille.spec_width() == old(braille).spec_width(),
                braille.spec_height() == old(braille).spec_height(),
                braille.colors_seq() == old(braille).colors_seq(),
                gw == old(braille).spec_dot_width(),
                gh == old(braille).spec_dot_height(),
                dot_w == gw,
                dot_h == gh,
                luma@.len() >= img_w * img_h,
                img_w * img_h <= usize::MAX,
                img_w > 0,
                img_h > 0,
                dy < dot_h,
                dx <= dot_w,
                sy == sample_row(dy as int, img_h as int, gh),
                0 <= sy < img_h,
                sy_off == sy * img_w,
                forall|x: int, y: int|
                    braille.spec_dot(x, y) == (old(braille).spec_dot(x, y) || (0 <= x < gw && 0
                        <= y < gh && (y < dy || (y == dy && x < dx)) && luma_dot(
                        luma@,
                        img_w as int,
                        img_h as int,
                        threshold,
                        gw,
                        gh,
                        x,
                        y,
                    ))),
            decreases dot_w - dx,
        {
            proof {
                lemma_sample_in_range(dx as int, img_w as int, gw);
                lemma_cell_offset_bounds(
                    sy as int,
                    sample_col(dx as int, img_w as int, gw),
                    img_w as int,
                    img_h as int,
                );
            }
            proof {
                assert((dx as int) * (img_w as int) < u128::MAX) by (nonlinear_arith)
                    requires
                        0 <= dx <= 0xffff_ffff_ffff_ffff,
                        0 <= img_w <= 0xffff_ffff_ffff_ffff,
                ;
            }
            let sx = ((dx as u128 * img_w as u128) / (dot_w as u128)) as usize;
            let v = luma[sy_off + sx];
            if v >= threshold {
                braille.set_dot(dx, dy);
            }
            dx = dx + 1;
        }
        dy = dy + 1;
    }
}

/// Nearest-neighbour sampling never reads outside the source image.
proof fn lemma_sample_in_range(d: int, img: int, dots: int)
    requires
        0 <= d < dots,
        img > 0,
    ensures
        0 <= d * img / dots < img,
{
    vstd::arithmetic::mul::lemma_mul_inequality(d, dots - 1, img);
    assert((dots - 1) * img == dots * img - img) by (nonlinear_arith);
    vstd::arithmetic::div_mod::lemma_multiply_divide_lt(d * img, dots, img);
    vstd::arithmetic::div_mod::lemma_div_pos_is_pos(d * img, dots);
}

/// A row offset plus an in-row column stays inside the pixel buffer.
proof fn lemma_cell_offset_bounds(sy: int, sx: int, img_w: int, img_h: int)
    by (nonlinear_arith)
    requires
        0 <= sy < img_h,
        0 <= sx < img_w,
    ensures
        0 <= sy * img_w + sx < img_w * img_h,
{
}

} // verus!
