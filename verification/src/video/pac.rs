//! Pin2DMD `.pac` animation packages: header parsing, DMD frames, and
//! decompression probes for the packed payload.
//!
//! A `.pac` file starts with the four magic bytes `PAC `, a two-byte
//! version (minor before major), and a little-endian format word; the rest
//! is payload. Frame extraction from the payload is not implemented — the
//! packing of the payload varies by vendor and has not been worked out —
//! so parsing yields the header and no animations, exactly as stated in
//! the contracts.

use crate::text::dec_digits;
use crate::text::u8_to_dec_string;
use vstd::prelude::*;
use vstd::string::StringExecFns;

verus! {

/// Why a `.pac` header could not be parsed.
#[derive(Clone, Copy, Debug, PartialEq, Eq, Structural)]
pub enum PacParseError {
    /// The data ends before the eight header bytes.
    Truncated,
    /// The four magic bytes are not `PAC `.
    BadMagic,
}

/// The expected magic bytes, `PAC ` in ASCII.
pub open spec fn pac_magic() -> Seq<u8> {
    seq![80u8, 65u8, 67u8, 32u8]
}

/// A parsed `.pac` file header.
#[derive(Debug)]
pub struct PacHeader {
    /// The magic bytes, always `PAC `.
    pub magic: [u8; 4],
    pub version_minor: u8,
    pub version_major: u8,
    /// The little-endian format word.
    pub format_type: u16,
    /// Everything after the eight header bytes.
    pub data: Vec<u8>,
}

impl PacHeader {
    /// Parse the header from a file's bytes: `Ok` exactly when the data has
    /// at least eight bytes and starts with the magic; `Truncated` when it
    /// is shorter, and `BadMagic` when it is long enough but the first four
    /// bytes differ.
    pub fn from_bytes(bytes: &Vec<u8>) -> (r: Result<PacHeader, PacParseError>)
        ensures
            (r matches Err(PacParseError::Truncated)) == (bytes@.len() < 8),
            (r matches Err(PacParseError::BadMagic)) == (bytes@.len() >= 8 && bytes@.subrange(
                0,
                4,
            ) != pac_magic()),
            (r is Ok) == (bytes@.len() >= 8 && bytes@.subrange(0, 4) == pac_magic()),
            r matches Ok(h) ==> {
                &&& h.magic@ == pac_magic()
                &&& h.version_minor == bytes@[4]
                &&& h.version_major == bytes@[5]
                &&& h.format_type == bytes@[6] + 256 * bytes@[7]
                &&& h.data@ == bytes@.skip(8)
            },
    {
        let n = bytes.len();
        if n < 8 {
            return Err(PacParseError::Truncated);
        }
        let b0 = bytes[0];
        let b1 = bytes[1];
        let b2 = bytes[2];
        let b3 = bytes[3];
        if !(b0 == 80 && b1 == 65 && b2 == 67 && b3 == 32) {
            proof {
                assert(bytes@.subrange(0, 4) != pac_magic()) by {
                    if bytes@.subrange(0, 4) == pac_magic() {
                        assert(bytes@.subrange(0, 4)[0] == 80);
                        assert(bytes@.subrange(0, 4)[1] == 65);
                        assert(bytes@.subrange(0, 4)[2] == 67);
                        assert(bytes@.subrange(0, 4)[3] == 32);
                    }
                }
            }
            return Err(PacParseError::BadMagic);
        }
        proof {
            assert(bytes@.subrange(0, 4) =~= pac_magic());
        }
        let version_minor = bytes[4];
        let version_major = bytes[5];
        let format_type: u16 = bytes[6] as u16 + 256 * (bytes[7] as u16);
        let mut data: Vec<u8> = Vec::new();
        let mut k: usize = 8;
        while k < n
            invariant
                n == bytes@.len(),
                8 <= k <= n,
                data@ =~= bytes@.subrange(8, k as int),
            decreases n - k,
        {
            data.push(bytes[k]);
            k = k + 1;
        }
        proof {
            assert(data@ =~= bytes@.skip(8));
        }
        Ok(PacHeader { magic: [b0, b1, b2, b3], version_minor, version_major, format_type, data })
    }

    /// The header's version as text, major before minor.
    pub fn version(&self) -> (s: String)
        ensures
            s@ == dec_digits(self.version_major as int) + "."@ + dec_digits(
                self.version_minor as int,
            ),
    {
        let mut s = u8_to_dec_string(self.version_major);
        s.append(".");
        let minor = u8_to_dec_string(self.version_minor);
        s.append(minor.as_str());
        s
    }
}

/// One DMD frame with palette-indexed color.
#[derive(Debug, Clone)]
pub struct DmdFrame {
    /// Width in pixels.
    pub width: usize,
    /// Height in pixels.
    pub height: usize,
    /// Palette index of each pixel, row-major.
    pub pixels: Vec<u8>,
    /// The RGB palette the indices point into.
    pub palette: Vec<[u8; 3]>,
    /// How long the frame is shown, in milliseconds.
    pub duration_ms: u32,
}

impl DmdFrame {
    /// The pixel sheet covers the advertised rectangle.
    pub open spec fn wf(&self) -> bool {
        &&& self.pixels@.len() == self.width * self.height
        &&& self.width * self.height <= usize::MAX
    }

    /// A black frame of the standard default shape: every pixel at palette
    /// index zero, a 16-entry all-black palette, and a 50 ms duration.
    pub fn new(width: usize, height: usize) -> (f: DmdFrame)
        requires
            width * height <= usize::MAX,
        ensures
            f.wf(),
            f.width == width,
            f.height == height,
            forall|i: int| 0 <= i < f.pixels@.len() ==> f.pixels@[i] == 0,
            f.palette@.len() == 16,
            forall|i: int, j: int|
                0 <= i < 16 && 0 <= j < 3 ==> #[trigger] f.palette@[i]@[j] == 0,
            f.duration_ms == 50,
    {
        let n = width * height;
        DmdFrame {
            width,
            height,
            pixels: vec![0u8; n],
            palette: vec![[0u8, 0u8, 0u8]; 16],
            duration_ms: 50,
        }
    }

    /// The palette index at `(x, y)`, or `None` outside the frame.
    pub fn get_pixel(&self, x: usize, y: usize) -> (p: Option<u8>)
        requires
            self.wf(),
        ensures
            p == (if x < self.width && y < self.height {
                Some(self.pixels@[y as int * self.width as int + x as int])
            } else {
                None::<u8>
            }),
    {
        if x >= self.width || y >= self.height {
            return None;
        }
        proof {
            crate::braille::lemma_cell_index_bounds(
                self.width as int,
                self.height as int,
                x as int,
                y as int,
            );
        }
        Some(self.pixels[y * self.width + x])
    }

    /// Set the palette index at `(x, y)`; coordinates outside the frame are
    /// ignored.
    pub fn set_pixel(&mut self, x: usize, y: usize, color_index: u8)
        requires
            old(self).wf(),
        ensures
            final(self).wf(),
            final(self).width == old(self).width,
            final(self).height == old(self).height,
            final(self).palette@ == old(self).palette@,
            final(self).duration_ms == old(self).duration_ms,
            x < old(self).width && y < old(self).height ==> final(self).pixels@ == old(
                self,
            ).pixels@.update(y as int * old(self).width as int + x as int, color_index),
            !(x < old(self).width && y < old(self).height) ==> final(self).pixels@ == old(
                self,
            ).pixels@,
    {
        if x < self.width && y < self.height {
            proof {
                crate::braille::lemma_cell_index_bounds(
                    self.width as int,
                    self.height as int,
                    x as int,
                    y as int,
                );
            }
            let idx = y * self.width + x;
            self.pixels.set(idx, color_index);
        }
    }

    /// The RGB color at `(x, y)`: the palette entry its index points at, or
    /// `None` outside the frame or outside the palette.
    pub fn get_pixel_color(&self, x: usize, y: usize) -> (c: Option<[u8; 3]>)
        requires
            self.wf(),
        ensures
            c == (if x < self.width && y < self.height && self.pixels@[y as int
                * self.width as int + x as int] < self.palette@.len() {
                Some(self.palette@[self.pixels@[y as int * self.width as int + x as int] as int])
            } else {
                None::<[u8; 3]>
            }),
    {
        match self.get_pixel(x, y) {
            Some(color_index) => {
                let ci = color_index as usize;
                if ci < self.palette.len() {
                    Some(self.palette[ci])
                } else {
                    None
                }
            },
            None => None,
        }
    }
}

/// The summed frame durations of an animation sequence.
pub open spec fn sum_frame_durations(frames: Seq<DmdFrame>) -> int
    decreases frames.len(),
{
    if frames.len() == 0 {
        0
    } else {
        sum_frame_durations(frames.drop_last()) + frames.last().duration_ms
    }
}

/// The summed durations are never negative.
proof fn lemma_sum_frame_durations_nonneg(frames: Seq<DmdFrame>)
    ensures
        sum_frame_durations(frames) >= 0,
    decreases frames.len(),
{
    if frames.len() > 0 {
        lemma_sum_frame_durations_nonneg(frames.drop_last());
    }
}

/// A named animation sequence out of a `.pac` package.
#[derive(Debug)]
pub struct PacAnimation {
    pub name: String,
    pub frames: Vec<DmdFrame>,
}

impl PacAnimation {
    /// How many frames the sequence has.
    pub fn frame_count(&self) -> (n: usize)
        ensures
            n == self.frames@.len(),
    {
        self.frames.len()
    }

    /// The sequence's total duration: the sum of its frame durations.
    pub fn total_duration_ms(&self) -> (t: u32)
        requires
            sum_frame_durations(self.frames@) <= u32::MAX,
        ensures
            t == sum_frame_durations(self.frames@),
    {
        let mut total: u32 = 0;
        let mut k: usize = 0;
        let n = self.frames.len();
        while k < n
            invariant
                n == self.frames@.len(),
                k <= n,
                sum_frame_durations(self.frames@) <= u32::MAX,
                total == sum_frame_durations(self.frames@.take(k as int)),
            decreases n - k,
        {
            proof {
                lemma_sum_prefix_bound(self.frames@, k as int);
                assert(self.frames@.take(k + 1).drop_last() =~= self.frames@.take(k as int));
                assert(self.frames@.take(k + 1).last() == self.frames@[k as int]);
            }
            total = total + self.frames[k].duration_ms;
            k = k + 1;
        }
        proof {
            assert(self.frames@.take(n as int) =~= self.frames@);
        }
        total
    }
}

/// A prefix of the duration sum never exceeds the whole sum.
proof fn lemma_sum_prefix_bound(frames: Seq<DmdFrame>, k: int)
    requires
        0 <= k < frames.len(),
    ensures
        sum_frame_durations(frames.take(k)) + frames[k].duration_ms <= sum_frame_durations(frames),
        sum_frame_durations(frames.take(k)) >= 0,
    decreases frames.len(),
{
    lemma_sum_frame_durations_nonneg(frames.take(k));
    if k == frames.len() - 1 {
        assert(frames.take(k) =~= frames.drop_last());
    } else {
        lemma_sum_prefix_bound(frames.drop_last(), k);
        assert(frames.drop_last().take(k) =~= frames.take(k));
    }
}

/// Parse a `.pac` package's animations. Frame extraction from the payload
/// is not implemented, so every well-formed package currently yields the
/// empty list; the header is still validated by `PacHeader::from_bytes`.
pub fn parse_pac_animations(header: &PacHeader) -> (r: Vec<PacAnimation>)
    ensures
        r@.len() == 0,
{
    let _ = header;
    Vec::new()
}

/// What a raw DEFLATE stream inflates to, or `None` where it is not a
/// well-formed stream: a function of the input bytes alone.
pub uninterp spec fn inflate_deflate_of(data: Seq<u8>) -> Option<Seq<u8>>;

/// What a zlib stream inflates to, or `None`: a function of the input
/// bytes alone.
pub uninterp spec fn inflate_zlib_of(data: Seq<u8>) -> Option<Seq<u8>>;

/// What a gzip stream decompresses to, or `None`: a function of the input
/// bytes alone.
pub uninterp spec fn inflate_gzip_of(data: Seq<u8>) -> Option<Seq<u8>>;

/// Relies on flate2's read::DeflateDecoder, read to the end with std's
/// Read::read_to_end: it inflates a raw DEFLATE stream, a pure function of
/// the input bytes; a read error is a malformed stream.
#[verifier::external_body]
fn inflate_deflate(data: &Vec<u8>) -> (r: Option<Vec<u8>>)
    ensures
        (r is Some) == (inflate_deflate_of(data@) is Some),
        r matches Some(v) ==> inflate_deflate_of(data@) == Some(v@),
{
    let mut decoder = flate2::read::DeflateDecoder::new(data.as_slice());
    let mut out = Vec::new();
    match std::io::Read::read_to_end(&mut decoder, &mut out) {
        Ok(_) => Some(out),
        Err(_) => None,
    }
}

/// Relies on flate2's read::ZlibDecoder, read to the end with std's
/// Read::read_to_end: it inflates a zlib stream, a pure function of the
/// input bytes; a read error is a malformed stream.
#[verifier::external_body]
fn inflate_zlib(data: &Vec<u8>) -> (r: Option<Vec<u8>>)
    ensures
        (r is Some) == (inflate_zlib_of(data@) is Some),
        r matches Some(v) ==> inflate_zlib_of(data@) == Some(v@),
{
    let mut decoder = flate2::read::ZlibDecoder::new(data.as_slice());
    let mut out = Vec::new();
    match std::io::Read::read_to_end(&mut decoder, &mut out) {
        Ok(_) => Some(out),
        Err(_) => None,
    }
}

/// Relies on flate2's read::GzDecoder, read to the end with std's
/// Read::read_to_end: it decompresses a gzip stream, a pure function of
/// the input bytes; a read error is a malformed stream.
#[verifier::external_body]
fn inflate_gzip(data: &Vec<u8>) -> (r: Option<Vec<u8>>)
    ensures
        (r is Some) == (inflate_gzip_of(data@) is Some),
        r matches Some(v) ==> inflate_gzip_of(data@) == Some(v@),
{
    let mut decoder = flate2::read::GzDecoder::new(data.as_slice());
    let mut out = Vec::new();
    match std::io::Read::read_to_end(&mut decoder, &mut out) {
        Ok(_) => Some(out),
        Err(_) => None,
    }
}

/// Probe a payload for raw DEFLATE compression: the probe reports a hit
/// exactly when the bytes inflate to a non-empty result.
pub fn try_deflate_decompress(data: &Vec<u8>) -> (r: Option<Vec<u8>>)
    ensures
        (r is Some) == (inflate_deflate_of(data@) matches Some(s) && s.len() > 0),
        r matches Some(v) ==> inflate_deflate_of(data@) == Some(v@) && v@.len() > 0,
{
    match inflate_deflate(data) {
        Some(v) => {
            if v.len() > 0 {
                Some(v)
            } else {
                None
            }
        },
        None => None,
    }
}

/// Probe a payload for zlib compression: a hit exactly when the bytes
/// inflate to a non-empty result.
pub fn try_zlib_decompress(data: &Vec<u8>) -> (r: Option<Vec<u8>>)
    ensures
        (r is Some) == (inflate_zlib_of(data@) matches Some(s) && s.len() > 0),
        r matches Some(v) ==> inflate_zlib_of(data@) == Some(v@) && v@.len() > 0,
{
    match inflate_zlib(data) {
        Some(v) => {
            if v.len() > 0 {
                Some(v)
            } else {
                None
            }
        },
        None => None,
    }
}

/// Probe a payload for gzip compression: a hit exactly when the bytes
/// decompress to a non-empty result.
pub fn try_gzip_decompress(data: &Vec<u8>) -> (r: Option<Vec<u8>>)
    ensures
        (r is Some) == (inflate_gzip_of(data@) matches Some(s) && s.len() > 0),
        r matches Some(v) ==> inflate_gzip_of(data@) == Some(v@) && v@.len() > 0,
{
    match inflate_gzip(data) {
        Some(v) => {
            if v.len() > 0 {
                Some(v)
            } else {
                None
            }
        },
        None => None,
    }
}

} // verus!
