//! The bright-marker detector: a global bounding box of bright pixels,
//! tested against a minimum span.
use vstd::prelude::*;
use crate::frame::{LumaImage, lemma_cell_index};

verus! {

/// A pixel is bright when its luma is at least this value.
pub const BRIGHT_THRESHOLD: u8 = 240;

/// The bounding box of bright pixels must span more than this many pixels
/// along each axis.
pub const MIN_MARKER_SPAN: u32 = 40;

/// The pixel at column `x`, row `y` of a `w` by `h` row-major image lies
/// inside it and is bright.
pub open spec fn is_bright(w: int, h: int, data: Seq<u8>, x: int, y: int) -> bool {
    0 <= x < w && 0 <= y < h && data[y * w + x] >= BRIGHT_THRESHOLD
}

/// Two bright pixels lie more than `MIN_MARKER_SPAN` columns apart.
pub open spec fn wide_enough(w: int, h: int, data: Seq<u8>) -> bool {
    exists|x1: int, y1: int, x2: int, y2: int|
        #[trigger] is_bright(w, h, data, x1, y1) && #[trigger] is_bright(w, h, data, x2, y2)
            && x2 - x1 > MIN_MARKER_SPAN
}

/// Two bright pixels lie more than `MIN_MARKER_SPAN` rows apart.
pub open spec fn tall_enough(w: int, h: int, data: Seq<u8>) -> bool {
    exists|x1: int, y1: int, x2: int, y2: int|
        #[trigger] is_bright(w, h, data, x1, y1) && #[trigger] is_bright(w, h, data, x2, y2)
            && y2 - y1 > MIN_MARKER_SPAN
}

/// The bounding box of all bright pixels is more than `MIN_MARKER_SPAN`
/// wide and more than `MIN_MARKER_SPAN` tall (spans counted from edge pixel
/// to edge pixel). The bright pixels need not be connected.
pub open spec fn marker_present(w: int, h: int, data: Seq<u8>) -> bool {
    wide_enough(w, h, data) && tall_enough(w, h, data)
}

/// Pixel (`px`, `py`) comes before (`i`, `j`) in row-major order.
pub open spec fn scanned(px: int, py: int, i: int, j: int) -> bool {
    py < j || (py == j && px < i)
}

/// Whether `gray` holds a bright marker, as `marker_present` states.
pub fn detect_white_blob(gray: &LumaImage) -> (r: bool)
    requires
        gray.wf(),
    ensures
        r == marker_present(gray.width as int, gray.height as int, gray.data@),
{
    let w: u32 = gray.width;
    let h: u32 = gray.height;
    let len = gray.data.len();
    let ghost data = gray.data@;
    let mut min_x: u32 = w;
    let mut max_x: u32 = 0;
    let mut min_y: u32 = h;
    let mut max_y: u32 = 0;
    let mut found = false;
    let ghost mut lo_x: (int, int) = (0, 0);
    let ghost mut hi_x: (int, int) = (0, 0);
    let ghost mut lo_y: (int, int) = (0, 0);
    let ghost mut hi_y: (int, int) = (0, 0);
    let mut j: u32 = 0;
    while j < h
        invariant
            gray.wf(),
            w == gray.width,
            h == gray.height,
            data == gray.data@,
            len == data.len(),
            j <= h,
            found ==> {
                &&& is_bright(w as int, h as int, data, lo_x.0, lo_x.1) && lo_x.0 == min_x && lo_x.1 < j
                &&& is_bright(w as int, h as int, data, hi_x.0, hi_x.1) && hi_x.0 == max_x && hi_x.1 < j
                &&& is_bright(w as int, h as int, data, lo_y.0, lo_y.1) && lo_y.1 == min_y && lo_y.1 < j
                &&& is_bright(w as int, h as int, data, hi_y.0, hi_y.1) && hi_y.1 == max_y && hi_y.1 < j
            },
            forall|px: int, py: int|
                #[trigger] is_bright(w as int, h as int, data, px, py) && py < j ==> {
                    &&& found
                    &&& min_x <= px <= max_x
                    &&& min_y <= py <= max_y
                },
        decreases h - j,
    {
        let mut i: u32 = 0;
        proof {
            assert(0 <= j * w) by (nonlinear_arith) requires 0 <= j, 0 <= w;
        }
        while i < w
            invariant
                gray.wf(),
                w == gray.width,
                h == gray.height,
                data == gray.data@,
                len == data.len(),
                j < h,
                i <= w,
                found ==> {
                    &&& is_bright(w as int, h as int, data, lo_x.0, lo_x.1) && lo_x.0 == min_x
                        && scanned(lo_x.0, lo_x.1, i as int, j as int)
                    &&& is_bright(w as int, h as int, data, hi_x.0, hi_x.1) && hi_x.0 == max_x
                        && scanned(hi_x.0, hi_x.1, i as int, j as int)
                    &&& is_bright(w as int, h as int, data, lo_y.0, lo_y.1) && lo_y.1 == min_y
                        && scanned(lo_y.0, lo_y.1, i as int, j as int)
                    &&& is_bright(w as int, h as int, data, hi_y.0, hi_y.1) && hi_y.1 == max_y
                        && scanned(hi_y.0, hi_y.1, i as int, j as int)
                },
                forall|px: int, py: int|
                    #[trigger] is_bright(w as int, h as int, data, px, py)
                        && scanned(px, py, i as int, j as int) ==> {
                        &&& found
                        &&& min_x <= px <= max_x
                        &&& min_y <= py <= max_y
                    },
            decreases w - i,
        {
            proof {
                lemma_cell_index(i as int, j as int, w as int, h as int);
            }
            let v = gray.data[j as usize * w as usize + i as usize];
            if v >= BRIGHT_THRESHOLD {
                if !found || i < min_x {
                    min_x = i;
                    proof { lo_x = (i as int, j as int); }
                }
                if !found || i > max_x {
                    max_x = i;
                    proof { hi_x = (i as int, j as int); }
                }
                if !found || j < min_y {
                    min_y = j;
                    proof { lo_y = (i as int, j as int); }
                }
                if !found || j > max_y {
                    max_y = j;
                    proof { hi_y = (i as int, j as int); }
                }
                found = true;
            }
            proof {
                assert(is_bright(w as int, h as int, data, i as int, j as int) <==> v >= BRIGHT_THRESHOLD);
            }
            i = i + 1;
        }
        j = j + 1;
    }
    if !found {
        return false;
    }
    let r = max_x - min_x > MIN_MARKER_SPAN && max_y - min_y > MIN_MARKER_SPAN;
    proof {
        if r {
            assert(wide_enough(w as int, h as int, data));
            assert(tall_enough(w as int, h as int, data));
        }
    }
    r
}

/// An image with no bright pixel, or with a single one, holds no marker.
pub proof fn lemma_no_marker_from_one_point(w: int, h: int, data: Seq<u8>)
    requires
        forall|x1: int, y1: int, x2: int, y2: int|
            #[trigger] is_bright(w, h, data, x1, y1) && #[trigger] is_bright(w, h, data, x2, y2)
                ==> x1 == x2 && y1 == y2,
    ensures
        !marker_present(w, h, data),
{
}

/// Bright pixels that all fit in a box spanning at most `MIN_MARKER_SPAN`
/// columns (its corner at column `bx`) never make a marker, however many
/// there are: a solid bright square of that span is rejected.
pub proof fn lemma_no_marker_in_narrow_box(w: int, h: int, data: Seq<u8>, bx: int)
    requires
        forall|x: int, y: int|
            #[trigger] is_bright(w, h, data, x, y) ==> bx <= x <= bx + MIN_MARKER_SPAN,
    ensures
        !marker_present(w, h, data),
{
}

} // verus!
