//! Pre-rendered animation frames: extraction from a canvas, and conversion
//! of GIFs and still images into frame sequences.
//!
//! The conversion pipeline is the library's own logic — nearest-neighbour
//! sampling, thresholding and glyph packing, all verified — around two
//! trusted decode calls into the `image` crate, whose results are named
//! so that every later step is pinned to them.

use crate::braille::BrailleGrid;
use crate::braille::glyph_code;
use crate::braille::patterns_dot;
use crate::video::blit_luma_to_braille;
use crate::video::luma_dot;
use vstd::prelude::*;

verus! {

/// A single frame of pre-rendered animation data: one pattern byte per
/// terminal cell, plus how long the frame is shown.
pub struct BrailleFrame {
    /// Dot patterns for each cell, row-major.
    pub patterns: Vec<u8>,
    /// Width in terminal cells.
    pub width: usize,
    /// Height in terminal cells.
    pub height: usize,
    /// Frame duration in milliseconds.
    pub duration_ms: u32,
}

impl BrailleFrame {
    /// The pattern sheet covers the advertised cell rectangle.
    pub open spec fn wf(&self) -> bool {
        &&& self.patterns@.len() == self.width * self.height
        &&& self.width * self.height <= usize::MAX
    }

    /// Whether this frame has the dot at dot coordinate `(x, y)`.
    pub open spec fn spec_dot(&self, x: int, y: int) -> bool {
        patterns_dot(self.patterns@, self.width as int, self.height as int, x, y)
    }

    /// Capture a canvas's patterns as a frame shown for `duration_ms`.
    pub fn from_grid(grid: &BrailleGrid, duration_ms: u32) -> (f: BrailleFrame)
        requires
            grid.wf(),
        ensures
            f.wf(),
            f.width == grid.spec_width(),
            f.height == grid.spec_height(),
            f.duration_ms == duration_ms,
            f.patterns@ == grid.patterns_seq(),
    {
        let width = grid.width();
        let height = grid.height();
        let mut patterns: Vec<u8> = Vec::new();
        let mut cy: usize = 0;
        while cy < height
            invariant
                grid.wf(),
                width == grid.spec_width(),
                height == grid.spec_height(),
                cy <= height,
                patterns@.len() == cy * width,
                forall|i: int|
                    0 <= i < patterns@.len() ==> patterns@[i] == grid.patterns_seq()[i],
            decreases height - cy,
        {
            let mut cx: usize = 0;
            while cx < width
                invariant
                    grid.wf(),
                    width == grid.spec_width(),
                    height == grid.spec_height(),
                    cy < height,
                    cx <= width,
                    patterns@.len() == cy * width + cx,
                    forall|i: int|
                        0 <= i < patterns@.len() ==> patterns@[i] == grid.patterns_seq()[i],
                decreases width - cx,
            {
                let ch = grid.get_char(cx, cy);
                let code = ch as u32;
                let p = (code - 0x2800) as u8;
                assert(p == grid.spec_pattern(cx as int, cy as int)) by {
                    assert(glyph_code(grid.spec_pattern(cx as int, cy as int)) == 0x2800
                        + grid.spec_pattern(cx as int, cy as int));
                }
                patterns.push(p);
                cx = cx + 1;
            }
            proof {
                assert(cy * width + width == (cy + 1) * width) by (nonlinear_arith);
            }
            cy = cy + 1;
        }
        proof {
            assert(grid.spec_width() * grid.spec_height() == grid.spec_height()
                * grid.spec_width()) by (nonlinear_arith);
            assert(patterns@ =~= grid.patterns_seq());
        }
        BrailleFrame { patterns, width, height, duration_ms }
    }

    /// OR this frame's dots into a canvas, clipped to the canvas size.
    /// Colors are left alone.
    pub fn apply_to_grid(&self, grid: &mut BrailleGrid)
        requires
            self.wf(),
            old(grid).wf(),
        ensures
            final(grid).wf(),
            final(grid).spec_width() == old(grid).spec_width(),
            final(grid).spec_height() == old(grid).spec_height(),
            final(grid).colors_seq() == old(grid).colors_seq(),
            forall|x: int, y: int|
                final(grid).spec_dot(x, y) == (old(grid).spec_dot(x, y) || (self.spec_dot(x, y)
                    && x < old(grid).spec_dot_width() && y < old(grid).spec_dot_height())),
    {
        grid.apply_cell_patterns(&self.patterns, self.width, self.height);
    }
}

/// Packed frame data round-trips bit-exactly: a frame captured from a
/// canvas carries exactly the canvas's dots, so applying it to an empty
/// canvas of the same size reproduces them dot for dot.
pub proof fn lemma_frame_round_trip(g: BrailleGrid, f: BrailleFrame)
    requires
        g.wf(),
        f.patterns@ == g.patterns_seq(),
        f.width == g.spec_width(),
        f.height == g.spec_height(),
    ensures
        forall|x: int, y: int| f.spec_dot(x, y) == g.spec_dot(x, y),
{
}

/// Why a conversion failed.
#[derive(Clone, Copy, Debug, PartialEq, Eq, Structural)]
pub enum ConvertError {
    /// The bytes are not a well-formed image of the expected format.
    Decode,
    /// A decoded frame has no pixels, so there is nothing to sample.
    EmptyFrame,
}

/// One decoded frame reduced to grayscale: luminance samples, the frame's
/// pixel size, and its delay as the stored ratio of milliseconds.
pub struct LumaFrame {
    pub luma: Vec<u8>,
    pub width: usize,
    pub height: usize,
    pub delay_num: u32,
    pub delay_den: u32,
}

/// The grayscale frames a GIF's bytes decode to — each frame's luminance
/// samples, pixel size, and delay ratio — or `None` where the bytes are not
/// a well-formed GIF. A function of the bytes alone.
pub uninterp spec fn gif_luma_frames_of(bytes: Seq<u8>) -> Option<
    Seq<(Seq<u8>, nat, nat, u32, u32)>,
>;

/// The luminance samples and pixel size a still image's bytes decode to,
/// or `None` where they are not a well-formed image. A function of the
/// bytes alone.
pub uninterp spec fn image_luma_of(bytes: Seq<u8>) -> Option<(Seq<u8>, nat, nat)>;

/// Relies on image's GifDecoder and AnimationDecoder, with to_luma8 and
/// Delay::numer_denom_ms: decoding an in-memory GIF and reducing each frame
/// to 8-bit luminance is a function of the bytes alone; a luminance buffer
/// holds exactly one sample per pixel, and the delay ratio is the one the
/// container stores.
#[verifier::external_body]
fn decode_gif_frames(bytes: &Vec<u8>) -> (r: Option<Vec<LumaFrame>>)
    ensures
        (r is Some) == (gif_luma_frames_of(bytes@) is Some),
        r matches Some(frames) ==> {
            let m = gif_luma_frames_of(bytes@).unwrap();
            &&& frames@.len() == m.len()
            &&& forall|i: int|
                0 <= i < m.len() ==> {
                    &&& (#[trigger] frames@[i]).luma@ == m[i].0
                    &&& frames@[i].width == m[i].1
                    &&& frames@[i].height == m[i].2
                    &&& frames@[i].delay_num == m[i].3
                    &&& frames@[i].delay_den == m[i].4
                    &&& frames@[i].luma@.len() == m[i].1 * m[i].2
                }
        },
{
    let cursor = std::io::Cursor::new(bytes.as_slice());
    let decoder = image::codecs::gif::GifDecoder::new(cursor).ok()?;
    let frames = image::AnimationDecoder::into_frames(decoder).collect_frames().ok()?;
    Some(frames.into_iter().map(|f| {
        let (delay_num, delay_den) = f.delay().numer_denom_ms();
        let g = image::DynamicImage::ImageRgba8(f.into_buffer()).to_luma8();
        let (w, h) = g.dimensions();
        LumaFrame { luma: g.into_raw(), width: w as usize, height: h as usize, delay_num, delay_den }
    }).collect())
}

/// Relies on image::guess_format — a pure check of the bytes against the
/// built-in magic-byte table — and image::load_from_memory_with_format,
/// which decodes with the named built-in decoder and so never consults the
/// process-global format- and decoding-hook registries, and on
/// DynamicImage::to_luma8: decoding a still image to 8-bit luminance this
/// way is a function of the bytes alone; the buffer holds exactly one
/// sample per pixel.
#[verifier::external_body]
fn decode_image_luma(bytes: &Vec<u8>) -> (r: Option<(Vec<u8>, usize, usize)>)
    ensures
        (r is Some) == (image_luma_of(bytes@) is Some),
        r matches Some(t) ==> {
            &&& image_luma_of(bytes@) == Some((t.0@, t.1 as nat, t.2 as nat))
            &&& t.0@.len() == t.1 * t.2
        },
{
    let format = image::guess_format(bytes.as_slice()).ok()?;
    let g = image::load_from_memory_with_format(bytes.as_slice(), format).ok()?.to_luma8();
    let (w, h) = g.dimensions();
    Some((g.into_raw(), w as usize, h as usize))
}

/// The duration a converted frame is shown: the decoded delay in whole
/// milliseconds, but never below 10.
pub open spec fn frame_duration_ms(num: u32, den: u32) -> u32 {
    let den1 = if den < 1 {
        1u32
    } else {
        den
    };
    let d = num / den1;
    if d < 10 {
        10u32
    } else {
        d
    }
}

/// Whether `f` is the conversion of a `img_w x img_h` grayscale frame onto
/// a `w x h`-cell Braille frame at the given threshold: each dot samples
/// the image by nearest neighbour and is set exactly when the sample
/// clears the threshold.
pub open spec fn frame_converted(
    luma: Seq<u8>,
    img_w: int,
    img_h: int,
    threshold: u8,
    duration: u32,
    w: int,
    h: int,
    f: BrailleFrame,
) -> bool {
    &&& f.wf()
    &&& f.width == w
    &&& f.height == h
    &&& f.duration_ms == duration
    &&& forall|x: int, y: int|
        f.spec_dot(x, y) == (0 <= x < 2 * w && 0 <= y < 4 * h && luma_dot(
            luma,
            img_w,
            img_h,
            threshold,
            2 * w,
            4 * h,
            x,
            y,
        ))
}

/// Whether a decoded GIF has a frame without pixels.
pub open spec fn gif_has_empty_frame(m: Seq<(Seq<u8>, nat, nat, u32, u32)>) -> bool {
    exists|i: int| 0 <= i < m.len() && ((#[trigger] m[i]).1 == 0 || m[i].2 == 0)
}

/// Whether `fs` converts the decoded frames `m` one for one: same count,
/// and each frame is the thresholded nearest-neighbour sampling of its
/// source, shown for the source's delay (at least 10 ms).
pub open spec fn gif_frames_all_converted(
    m: Seq<(Seq<u8>, nat, nat, u32, u32)>,
    threshold: u8,
    w: int,
    h: int,
    fs: Seq<BrailleFrame>,
) -> bool {
    &&& fs.len() == m.len()
    &&& forall|i: int|
        0 <= i < m.len() ==> frame_converted(
            (#[trigger] m[i]).0,
            m[i].1 as int,
            m[i].2 as int,
            threshold,
            frame_duration_ms(m[i].3, m[i].4),
            w,
            h,
            fs[i],
        )
}

/// Convert each frame of an in-memory animated GIF to a `width x height`
/// cell Braille frame by nearest-neighbour sampling at `threshold`.
pub fn gif_to_frames(bytes: &Vec<u8>, width: usize, height: usize, threshold: u8) -> (r: Result<
    Vec<BrailleFrame>,
    ConvertError,
>)
    requires
        width * height <= usize::MAX,
        2 * width <= usize::MAX,
        4 * height <= usize::MAX,
    ensures
        (r matches Err(ConvertError::Decode)) == (gif_luma_frames_of(bytes@) is None),
        gif_luma_frames_of(bytes@) matches Some(m) ==> {
            &&& (r matches Err(ConvertError::EmptyFrame)) == gif_has_empty_frame(m)
            &&& r matches Ok(fs) ==> gif_frames_all_converted(
                m,
                threshold,
                width as int,
                height as int,
                fs@,
            )
        },
{
    let decoded = match decode_gif_frames(bytes) {
        Some(frames) => frames,
        None => {
            return Err(ConvertError::Decode);
        },
    };
    let ghost m = gif_luma_frames_of(bytes@).unwrap();
    let mut out: Vec<BrailleFrame> = Vec::new();
    let mut i: usize = 0;
    let n = decoded.len();
    while i < n
        invariant
            width * height <= usize::MAX,
            2 * width <= usize::MAX,
            4 * height <= usize::MAX,
            n == decoded@.len(),
            i <= n,
            gif_luma_frames_of(bytes@) == Some(m),
            decoded@.len() == m.len(),
            forall|j: int|
                0 <= j < m.len() ==> {
                    &&& (#[trigger] decoded@[j]).luma@ == m[j].0
                    &&& decoded@[j].width == m[j].1
                    &&& decoded@[j].height == m[j].2
                    &&& decoded@[j].delay_num == m[j].3
                    &&& decoded@[j].delay_den == m[j].4
                    &&& decoded@[j].luma@.len() == m[j].1 * m[j].2
                },
            out@.len() == i,
            forall|j: int| 0 <= j < i ==> m[j].1 > 0 && (#[trigger] m[j].2) > 0,
            forall|j: int|
                0 <= j < i ==> frame_converted(
                    (#[trigger] m[j]).0,
                    m[j].1 as int,
                    m[j].2 as int,
                    threshold,
                    frame_duration_ms(m[j].3, m[j].4),
                    width as int,
                    height as int,
                    out@[j],
                ),
        decreases n - i,
    {
        let f = &decoded[i];
        let img_w = f.width;
        let img_h = f.height;
        if img_w == 0 || img_h == 0 {
            proof {
                assert(0 <= i < m.len() && (m[i as int].1 == 0 || m[i as int].2 == 0));
                assert(gif_has_empty_frame(m));
            }
            return Err(ConvertError::EmptyFrame);
        }
        proof {
            vstd::std_specs::vec::axiom_spec_len(&f.luma);
        }
        let den1 = if f.delay_den < 1 {
            1
        } else {
            f.delay_den
        };
        let d0 = f.delay_num / den1;
        let duration = if d0 < 10 {
            10
        } else {
            d0
        };
        let mut grid = BrailleGrid::new(width, height);
        blit_luma_to_braille(&f.luma, img_w, img_h, threshold, &mut grid);
        let frame = BrailleFrame::from_grid(&grid, duration);
        proof {
            assert forall|x: int, y: int|
                frame.spec_dot(x, y) == (0 <= x < 2 * width && 0 <= y < 4 * height && luma_dot(
                    m[i as int].0,
                    m[i as int].1 as int,
                    m[i as int].2 as int,
                    threshold,
                    2 * width as int,
                    4 * height as int,
                    x,
                    y,
                )) by {
                assert(frame.spec_dot(x, y) == grid.spec_dot(x, y));
            }
        }
        out.push(frame);
        i = i + 1;
    }
    proof {
        assert(!gif_has_empty_frame(m)) by {
            if gif_has_empty_frame(m) {
                let j = choose|j: int| 0 <= j < m.len() && ((#[trigger] m[j]).1 == 0 || m[j].2 == 0);
                assert(m[j].1 > 0 && m[j].2 > 0);
            }
        }
        assert(gif_frames_all_converted(m, threshold, width as int, height as int, out@));
    }
    Ok(out)
}

/// Convert an in-memory still image to a single Braille frame shown for
/// 100 milliseconds.
pub fn image_to_frame(bytes: &Vec<u8>, width: usize, height: usize, threshold: u8) -> (r: Result<
    BrailleFrame,
    ConvertError,
>)
    requires
        width * height <= usize::MAX,
        2 * width <= usize::MAX,
        4 * height <= usize::MAX,
    ensures
        (r matches Err(ConvertError::Decode)) == (image_luma_of(bytes@) is None),
        image_luma_of(bytes@) matches Some(m) ==> {
            &&& (r matches Err(ConvertError::EmptyFrame)) == (m.1 == 0 || m.2 == 0)
            &&& r matches Ok(f) ==> frame_converted(
                m.0,
                m.1 as int,
                m.2 as int,
                threshold,
                100,
                width as int,
                height as int,
                f,
            )
        },
{
    let decoded = match decode_image_luma(bytes) {
        Some(t) => t,
        None => {
            return Err(ConvertError::Decode);
        },
    };
    let (luma, img_w, img_h) = decoded;
    if img_w == 0 || img_h == 0 {
        return Err(ConvertError::EmptyFrame);
    }
    proof {
        vstd::std_specs::vec::axiom_spec_len(&luma);
    }
    let mut grid = BrailleGrid::new(width, height);
    blit_luma_to_braille(&luma, img_w, img_h, threshold, &mut grid);
    let frame = BrailleFrame::from_grid(&grid, 100);
    proof {
        let m = image_luma_of(bytes@).unwrap();
        assert forall|x: int, y: int|
            frame.spec_dot(x, y) == (0 <= x < 2 * width && 0 <= y < 4 * height && luma_dot(
                m.0,
                m.1 as int,
                m.2 as int,
                threshold,
                2 * width as int,
                4 * height as int,
                x,
                y,
            )) by {
            assert(frame.spec_dot(x, y) == grid.spec_dot(x, y));
        }
    }
    Ok(frame)
}

} // verus!
