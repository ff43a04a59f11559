//! Colour snapshots, single-channel luma images, and the extraction of a
//! clipped region of a snapshot as a luma image.
use vstd::prelude::*;
use vstd::arithmetic::div_mod::lemma_fundamental_div_mod_converse;
use crate::config::OcrConfig;

verus! {

/// Luma of one colour pixel: `0.299 R + 0.587 G + 0.114 B`, rounded to the
/// nearest integer (halves upward).
pub open spec fn luma_of(r: u8, g: u8, b: u8) -> u8 {
    ((299 * r + 587 * g + 114 * b + 500) / 1000) as u8
}

/// A full colour snapshot of a display: `width * height` pixels in row-major
/// order, four bytes (red, green, blue, alpha) per pixel.
pub struct Frame {
    pub width: u32,
    pub height: u32,
    pub data: Vec<u8>,
}

/// A single-channel image: `width * height` luma bytes in row-major order.
pub struct LumaImage {
    pub width: u32,
    pub height: u32,
    pub data: Vec<u8>,
}

impl Frame {
    pub open spec fn wf(&self) -> bool {
        self.data@.len() == 4 * (self.width as int) * (self.height as int)
    }

    /// Byte `c` of the pixel at column `x`, row `y`.
    pub open spec fn channel(&self, x: int, y: int, c: int) -> u8 {
        self.data@[4 * (y * self.width + x) + c]
    }

    /// Luma of the pixel at column `x`, row `y`.
    pub open spec fn luma_at(&self, x: int, y: int) -> u8 {
        luma_of(self.channel(x, y, 0), self.channel(x, y, 1), self.channel(x, y, 2))
    }

    /// A snapshot from its dimensions and raw RGBA bytes; `None` when the
    /// byte count is not four per pixel.
    pub fn from_rgba(width: u32, height: u32, data: Vec<u8>) -> (r: Option<Frame>)
        ensures
            r is Some <==> data@.len() == 4 * (width as int) * (height as int),
            r matches Some(f) ==> f.width == width && f.height == height && f.data@ == data@,
    {
        let n = pixel_count(width, height);
        let len = data.len();
        proof {
            assert(4 * (n as int) == 4 * (width as int) * (height as int)) by (nonlinear_arith)
                requires n == width as int * height as int;
        }
        if n <= usize::MAX as u64 / 4 && len == 4 * (n as usize) {
            Some(Frame { width, height, data })
        } else {
            None
        }
    }
}

/// `width * height` as a `u64`; the product always fits.
fn pixel_count(width: u32, height: u32) -> (r: u64)
    ensures
        r == width as int * height as int,
{
    proof {
        assert(width as int * height as int <= u32::MAX as int * u32::MAX as int) by (nonlinear_arith)
            requires width <= u32::MAX, height <= u32::MAX;
    }
    width as u64 * height as u64
}

impl LumaImage {
    pub open spec fn wf(&self) -> bool {
        self.data@.len() == (self.width as int) * (self.height as int)
    }

    /// An image from its dimensions and luma bytes; `None` when the byte
    /// count is not one per pixel.
    pub fn from_luma(width: u32, height: u32, data: Vec<u8>) -> (r: Option<LumaImage>)
        ensures
            r is Some <==> data@.len() == (width as int) * (height as int),
            r matches Some(img) ==> img.width == width && img.height == height && img.data@ == data@,
    {
        let n = pixel_count(width, height);
        let len = data.len();
        if n <= usize::MAX as u64 && len == n as usize {
            Some(LumaImage { width, height, data })
        } else {
            None
        }
    }

    /// The luma byte at column `x`, row `y`.
    pub fn get_pixel(&self, x: u32, y: u32) -> (r: u8)
        requires
            self.wf(),
            x < self.width,
            y < self.height,
        ensures
            r == self.data@[y * self.width + x],
    {
        let len = self.data.len();
        proof {
            lemma_cell_index(x as int, y as int, self.width as int, self.height as int);
        }
        self.data[y as usize * self.width as usize + x as usize]
    }
}

/// The cell at column `x`, row `y` of a `w` by `h` grid lies inside it.
pub proof fn lemma_cell_index(x: int, y: int, w: int, h: int)
    requires
        0 <= x < w,
        0 <= y < h,
    ensures
        0 <= y * w,
        y * w + x < w * h,
        4 * (y * w + x) + 3 < 4 * w * h,
{
    assert(0 <= y * w && y * w + x < w * h && 4 * (y * w + x) + 3 < 4 * w * h) by (nonlinear_arith)
        requires 0 <= x < w, 0 <= y < h;
}

/// Luma of one colour pixel, as `luma_of` states.
pub fn luma(r: u8, g: u8, b: u8) -> (v: u8)
    ensures
        v == luma_of(r, g, b),
{
    let sum: u32 = 299 * (r as u32) + 587 * (g as u32) + 114 * (b as u32) + 500;
    (sum / 1000) as u8
}

/// A requested corner coordinate clamped to `0..=limit`.
pub open spec fn clamp_corner(v: i32, limit: u32) -> int {
    let c: int = if v < 0 { 0 } else { v as int };
    if c < limit { c } else { limit as int }
}

/// Left edge of the clipped rectangle.
pub open spec fn clip_x(f: &Frame, r: OcrConfig) -> int {
    clamp_corner(r.capture_x, f.width)
}

/// Top edge of the clipped rectangle.
pub open spec fn clip_y(f: &Frame, r: OcrConfig) -> int {
    clamp_corner(r.capture_y, f.height)
}

/// Width of the clipped rectangle: the requested width, cut at the
/// snapshot's right edge.
pub open spec fn clip_width(f: &Frame, r: OcrConfig) -> int {
    let avail = f.width - clip_x(f, r);
    if r.capture_width < avail { r.capture_width as int } else { avail }
}

/// Height of the clipped rectangle: the requested height, cut at the
/// snapshot's bottom edge.
pub open spec fn clip_height(f: &Frame, r: OcrConfig) -> int {
    let avail = f.height - clip_y(f, r);
    if r.capture_height < avail { r.capture_height as int } else { avail }
}

/// Snapshot column of the `k`-th pixel of the clipped rectangle.
pub open spec fn source_col(f: &Frame, r: OcrConfig, k: int) -> int {
    clip_x(f, r) + k % clip_width(f, r)
}

/// Snapshot row of the `k`-th pixel of the clipped rectangle.
pub open spec fn source_row(f: &Frame, r: OcrConfig, k: int) -> int {
    clip_y(f, r) + k / clip_width(f, r)
}

/// Luma bytes of the clipped rectangle, row by row.
pub open spec fn region_luma(f: &Frame, r: OcrConfig) -> Seq<u8> {
    Seq::new(
        (clip_width(f, r) * clip_height(f, r)) as nat,
        |k: int| f.luma_at(source_col(f, r, k), source_row(f, r, k)),
    )
}

/// The clipped region of `frame` that `region` asks for, as a luma image;
/// `None` when the clipped rectangle is empty.
pub fn extract(frame: &Frame, region: OcrConfig) -> (r: Option<LumaImage>)
    requires
        frame.wf(),
    ensures
        r is None <==> clip_width(frame, region) == 0 || clip_height(frame, region) == 0,
        r matches Some(img) ==> {
            &&& img.wf()
            &&& img.width == clip_width(frame, region)
            &&& img.height == clip_height(frame, region)
            &&& img.data@ == region_luma(frame, region)
        },
{
    let mx: u32 = if region.capture_x < 0 { 0 } else { region.capture_x as u32 };
    let my: u32 = if region.capture_y < 0 { 0 } else { region.capture_y as u32 };
    let cx: u32 = if mx < frame.width { mx } else { frame.width };
    let cy: u32 = if my < frame.height { my } else { frame.height };
    let cw: u32 = if region.capture_width < frame.width - cx { region.capture_width } else { frame.width - cx };
    let ch: u32 = if region.capture_height < frame.height - cy { region.capture_height } else { frame.height - cy };
    if cw == 0 || ch == 0 {
        return None;
    }
    let ghost target = region_luma(frame, region);
    let len = frame.data.len();
    proof {
        assert(target.len() == cw * ch);
    }
    let mut data: Vec<u8> = Vec::new();
    let mut j: u32 = 0;
    while j < ch
        invariant
            frame.wf(),
            cx == clip_x(frame, region),
            cy == clip_y(frame, region),
            cw == clip_width(frame, region),
            ch == clip_height(frame, region),
            cw > 0,
            target == region_luma(frame, region),
            target.len() == cw * ch,
            len == frame.data@.len(),
            j <= ch,
            data@.len() == j * cw,
            forall|k: int| 0 <= k < data@.len() ==> #[trigger] data@[k] == target[k],
        decreases ch - j,
    {
        let mut i: u32 = 0;
        while i < cw
            invariant
                frame.wf(),
                cx == clip_x(frame, region),
                cy == clip_y(frame, region),
                cw == clip_width(frame, region),
                ch == clip_height(frame, region),
                cw > 0,
                target == region_luma(frame, region),
                target.len() == cw * ch,
                len == frame.data@.len(),
                j < ch,
                i <= cw,
                data@.len() == j * cw + i,
                forall|k: int| 0 <= k < data@.len() ==> #[trigger] data@[k] == target[k],
            decreases cw - i,
        {
            let px: u32 = cx + i;
            let py: u32 = cy + j;
            proof {
                lemma_cell_index(px as int, py as int, frame.width as int, frame.height as int);
                lemma_fundamental_div_mod_converse(j * cw + i, cw as int, j as int, i as int);
                assert(j * cw + i < cw * ch) by (nonlinear_arith)
                    requires i < cw, j < ch;
            }
            let p: usize = 4 * (py as usize * frame.width as usize + px as usize);
            let v = luma(frame.data[p], frame.data[p + 1], frame.data[p + 2]);
            data.push(v);
            i = i + 1;
        }
        proof {
            assert((j + 1) * cw == j * cw + cw) by (nonlinear_arith);
        }
        j = j + 1;
    }
    proof {
        assert(data@.len() == target.len()) by (nonlinear_arith)
            requires data@.len() == j * cw, j == ch, target.len() == cw * ch;
        assert(data@ =~= target);
    }
    Some(LumaImage { width: cw, height: ch, data })
}

/// A gray pixel keeps its value: the luma of (`v`, `v`, `v`) is `v`. In
/// particular white stays 255 and black stays 0.
pub proof fn lemma_luma_of_gray(v: u8)
    ensures
        luma_of(v, v, v) == v,
        luma_of(255, 255, 255) == 255,
        luma_of(0, 0, 0) == 0,
{
}

/// A non-empty region that lies wholly inside the snapshot is extracted at
/// its requested size, and its first luma byte is that of the snapshot pixel
/// at the region's corner.
pub proof fn lemma_inside_region_exact(f: &Frame, r: OcrConfig)
    requires
        f.wf(),
        0 <= r.capture_x,
        0 <= r.capture_y,
        0 < r.capture_width,
        0 < r.capture_height,
        r.capture_x + r.capture_width <= f.width,
        r.capture_y + r.capture_height <= f.height,
    ensures
        clip_x(f, r) == r.capture_x,
        clip_y(f, r) == r.capture_y,
        clip_width(f, r) == r.capture_width,
        clip_height(f, r) == r.capture_height,
        region_luma(f, r).len() > 0,
        region_luma(f, r)[0] == f.luma_at(r.capture_x as int, r.capture_y as int),
{
    let w = r.capture_width as int;
    assert(w * (r.capture_height as int) > 0) by (nonlinear_arith)
        requires w > 0, r.capture_height > 0;
    assert(0int % w == 0 && 0int / w == 0) by (nonlinear_arith)
        requires w > 0;
}

/// A negative corner coordinate is clamped to 0, and the clipped rectangle
/// never reaches outside the snapshot, whatever was requested.
pub proof fn lemma_clip_within_frame(f: &Frame, r: OcrConfig)
    requires
        f.wf(),
    ensures
        r.capture_x < 0 ==> clip_x(f, r) == 0,
        r.capture_y < 0 ==> clip_y(f, r) == 0,
        0 <= clip_x(f, r),
        0 <= clip_y(f, r),
        0 <= clip_width(f, r) <= r.capture_width,
        0 <= clip_height(f, r) <= r.capture_height,
        clip_x(f, r) + clip_width(f, r) <= f.width,
        clip_y(f, r) + clip_height(f, r) <= f.height,
        forall|k: int|
            0 <= k < region_luma(f, r).len() ==> {
                &&& 0 <= #[trigger] source_col(f, r, k) < f.width
                &&& 0 <= source_row(f, r, k) < f.height
            },
{
    let w = clip_width(f, r);
    let h = clip_height(f, r);
    assert forall|k: int| 0 <= k < region_luma(f, r).len() implies {
        &&& 0 <= #[trigger] source_col(f, r, k) < f.width
        &&& 0 <= source_row(f, r, k) < f.height
    } by {
        assert(0 <= k % w < w && 0 <= k / w < h) by (nonlinear_arith)
            requires 0 <= k < w * h, w >= 0, h >= 0;
    }
}

/// A region whose corner lies at or past the snapshot's right or bottom
/// edge is empty once clipped, so nothing is extracted.
pub proof fn lemma_origin_beyond_frame(f: &Frame, r: OcrConfig)
    requires
        f.wf(),
        r.capture_x >= f.width || r.capture_y >= f.height,
    ensures
        clip_width(f, r) == 0 || clip_height(f, r) == 0,
{
}

} // verus!
