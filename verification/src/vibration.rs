//! The neighbourhood vibration classifier: every non-zero pixel of a
//! single-channel frame is coloured by how many of its neighbours are also
//! non-zero, and the per-colour counts are attached as the frame's
//! statistic.

use vstd::prelude::*;

use crate::bounds::ColorBounds;
use crate::colors::{class_color, spec_class_color, PixelClass};
use crate::cvl::ProcessingResult;
use crate::errors::ProcessingError;
use crate::mat::{lemma_index_in_bounds, CvlMat, MatDepth, MatView};
use crate::statistic::Statistic;

verus! {

/// Whether the square of half-side `w` centred at `(r, c)` lies inside the
/// frame.
pub open spec fn spec_roi_ok(m: MatView, r: int, c: int, w: int) -> bool {
    r - w >= 0 && c - w >= 0 && r + w < m.rows && c + w < m.cols
}

/// The number of non-zero pixels of row `r` in columns `c0 .. c1`.
pub open spec fn spec_count_row(m: MatView, r: int, c0: int, c1: int) -> int
    decreases c1 - c0,
{
    if c1 <= c0 {
        0
    } else {
        spec_count_row(m, r, c0, c1 - 1) + if m.at(r, c1 - 1, 0) != 0 {
            1int
        } else {
            0int
        }
    }
}

/// The number of non-zero pixels in rows `r0 .. r1`, columns `c0 .. c1`.
pub open spec fn spec_count_rect(m: MatView, r0: int, r1: int, c0: int, c1: int) -> int
    decreases r1 - r0,
{
    if r1 <= r0 {
        0
    } else {
        spec_count_rect(m, r0, r1 - 1, c0, c1) + spec_count_row(m, r1 - 1, c0, c1)
    }
}

/// The number of non-zero pixels in the inclusive square of half-side `w`
/// centred at `(r, c)`; the centre pixel counts too.
pub open spec fn spec_roi_count(m: MatView, r: int, c: int, w: int) -> int {
    spec_count_rect(m, r - w, r + w + 1, c - w, c + w + 1)
}

/// The colour ladder over a neighbour count: the highest threshold that the
/// count reaches wins; below the first threshold the pixel stays black.
pub open spec fn spec_classify(k: int, bounds: ColorBounds) -> PixelClass {
    if k >= bounds.spec_get(4) {
        PixelClass::Red
    } else if k >= bounds.spec_get(3) {
        PixelClass::Yellow
    } else if k >= bounds.spec_get(2) {
        PixelClass::Cyan
    } else if k >= bounds.spec_get(1) {
        PixelClass::Green
    } else {
        PixelClass::Black
    }
}

/// A pixel is eligible for classification when it is non-zero, stands
/// outside row 0 and column 0, and its neighbourhood square stays inside
/// the frame.
pub open spec fn spec_eligible(m: MatView, r: int, c: int, w: int) -> bool {
    m.at(r, c, 0) != 0 && r != 0 && c != 0 && spec_roi_ok(m, r, c, w)
}

/// The colour class written at `(r, c)`: black for every ineligible pixel,
/// the ladder colour of the neighbour count for the rest.
pub open spec fn spec_vibration_class(
    m: MatView,
    w: int,
    bounds: ColorBounds,
    r: int,
    c: int,
) -> PixelClass {
    if spec_eligible(m, r, c, w) {
        spec_classify(spec_roi_count(m, r, c, w), bounds)
    } else {
        PixelClass::Black
    }
}

/// The four channel bytes of a colour class, in buffer order.
pub open spec fn spec_color_bytes(cls: PixelClass) -> Seq<u8> {
    let c = spec_class_color(cls);
    seq![c.0, c.1, c.2, c.3]
}

/// One channel byte of the colour written at `(r, c)`.
pub open spec fn spec_vibration_byte(
    m: MatView,
    w: int,
    bounds: ColorBounds,
    r: int,
    c: int,
    ch: int,
) -> u8 {
    spec_color_bytes(spec_vibration_class(m, w, bounds, r, c))[ch]
}

/// How many pixels of row `r`, columns `0 .. c1`, classify to `cls`.
pub open spec fn spec_class_row(
    m: MatView,
    w: int,
    bounds: ColorBounds,
    cls: PixelClass,
    r: int,
    c1: int,
) -> int
    decreases c1,
{
    if c1 <= 0 {
        0
    } else {
        spec_class_row(m, w, bounds, cls, r, c1 - 1) + if spec_vibration_class(
            m,
            w,
            bounds,
            r,
            c1 - 1,
        ) == cls {
            1int
        } else {
            0int
        }
    }
}

/// How many pixels of rows `0 .. r1` classify to `cls`.
pub open spec fn spec_class_upto(
    m: MatView,
    w: int,
    bounds: ColorBounds,
    cls: PixelClass,
    r1: int,
) -> int
    decreases r1,
{
    if r1 <= 0 {
        0
    } else {
        spec_class_upto(m, w, bounds, cls, r1 - 1) + spec_class_row(
            m,
            w,
            bounds,
            cls,
            r1 - 1,
            m.cols as int,
        )
    }
}

/// How many pixels of the whole frame classify to `cls`.
pub open spec fn spec_class_total(m: MatView, w: int, bounds: ColorBounds, cls: PixelClass) -> int {
    spec_class_upto(m, w, bounds, cls, m.rows as int)
}

/// How many pixels of row `r`, columns `0 .. c1`, are eligible.
pub open spec fn spec_eligible_row(m: MatView, w: int, r: int, c1: int) -> int
    decreases c1,
{
    if c1 <= 0 {
        0
    } else {
        spec_eligible_row(m, w, r, c1 - 1) + if spec_eligible(m, r, c1 - 1, w) {
            1int
        } else {
            0int
        }
    }
}

/// How many pixels of rows `0 .. r1` are eligible.
pub open spec fn spec_eligible_upto(m: MatView, w: int, r1: int) -> int
    decreases r1,
{
    if r1 <= 0 {
        0
    } else {
        spec_eligible_upto(m, w, r1 - 1) + spec_eligible_row(m, w, r1 - 1, m.cols as int)
    }
}

/// How many pixels of the whole frame are eligible.
pub open spec fn spec_eligible_total(m: MatView, w: int) -> int {
    spec_eligible_upto(m, w, m.rows as int)
}

/// The output bytes of row `r` up to column `c1`: four channel bytes per
/// pixel.
pub open spec fn spec_vib_row(m: MatView, w: int, bounds: ColorBounds, r: int, c1: int) -> Seq<u8>
    decreases c1,
{
    if c1 <= 0 {
        Seq::empty()
    } else {
        spec_vib_row(m, w, bounds, r, c1 - 1) + spec_color_bytes(
            spec_vibration_class(m, w, bounds, r, c1 - 1),
        )
    }
}

/// The output bytes of the first `r1` whole rows.
pub open spec fn spec_vib_upto(m: MatView, w: int, bounds: ColorBounds, r1: int) -> Seq<u8>
    decreases r1,
{
    if r1 <= 0 {
        Seq::empty()
    } else {
        spec_vib_upto(m, w, bounds, r1 - 1) + spec_vib_row(m, w, bounds, r1 - 1, m.cols as int)
    }
}

/// Row and rectangle counts lie between 0 and the number of cells counted.
proof fn lemma_count_row_bound(m: MatView, r: int, c0: int, c1: int)
    requires
        c0 <= c1,
    ensures
        0 <= spec_count_row(m, r, c0, c1) <= c1 - c0,
    decreases c1 - c0,
{
    if c1 > c0 {
        lemma_count_row_bound(m, r, c0, c1 - 1);
    }
}

proof fn lemma_count_rect_bound(m: MatView, r0: int, r1: int, c0: int, c1: int)
    requires
        r0 <= r1,
        c0 <= c1,
    ensures
        0 <= spec_count_rect(m, r0, r1, c0, c1) <= (r1 - r0) * (c1 - c0),
    decreases r1 - r0,
{
    if r1 > r0 {
        lemma_count_rect_bound(m, r0, r1 - 1, c0, c1);
        lemma_count_row_bound(m, r1 - 1, c0, c1);
        assert((r1 - r0) * (c1 - c0) == (r1 - 1 - r0) * (c1 - c0) + (c1 - c0))
            by (nonlinear_arith);
    }
}

/// A row's output bytes are four per pixel, and the byte at channel `ch` of
/// pixel `q` is the channel byte of that pixel's class.
proof fn lemma_vib_row_index(m: MatView, w: int, bounds: ColorBounds, r: int, c1: int)
    requires
        0 <= c1,
    ensures
        spec_vib_row(m, w, bounds, r, c1).len() == 4 * c1,
        forall|q: int, ch: int|
            0 <= q < c1 && 0 <= ch < 4 ==> #[trigger] spec_vib_row(m, w, bounds, r, c1)[q * 4 + ch]
                == spec_vibration_byte(m, w, bounds, r, q, ch),
    decreases c1,
{
    if c1 > 0 {
        lemma_vib_row_index(m, w, bounds, r, c1 - 1);
        assert forall|q: int, ch: int| 0 <= q < c1 && 0 <= ch < 4 implies #[trigger] spec_vib_row(
            m,
            w,
            bounds,
            r,
            c1,
        )[q * 4 + ch] == spec_vibration_byte(m, w, bounds, r, q, ch) by {
            if q < c1 - 1 {
                assert(q * 4 + ch < 4 * (c1 - 1)) by (nonlinear_arith)
                    requires 0 <= q < c1 - 1, 0 <= ch < 4;
                assert(spec_vib_row(m, w, bounds, r, c1)[q * 4 + ch] == spec_vib_row(
                    m,
                    w,
                    bounds,
                    r,
                    c1 - 1,
                )[q * 4 + ch]);
            } else {
                assert(q * 4 + ch == 4 * (c1 - 1) + ch) by (nonlinear_arith)
                    requires q == c1 - 1;
            }
        }
    }
}

/// The output bytes of `r1` whole rows are `4 * cols` per row, and the byte
/// at channel `ch` of pixel `(p, q)` is the channel byte of that pixel's
/// class.
proof fn lemma_vib_upto_index(m: MatView, w: int, bounds: ColorBounds, r1: int)
    requires
        0 <= r1,
    ensures
        spec_vib_upto(m, w, bounds, r1).len() == 4 * r1 * m.cols,
        forall|p: int, q: int, ch: int|
            0 <= p < r1 && 0 <= q < m.cols && 0 <= ch < 4 ==> #[trigger] spec_vib_upto(
                m,
                w,
                bounds,
                r1,
            )[(p * m.cols + q) * 4 + ch] == spec_vibration_byte(m, w, bounds, p, q, ch),
    decreases r1,
{
    if r1 == 0 {
        assert(4 * r1 * m.cols == 0) by (nonlinear_arith)
            requires r1 == 0;
    } else {
        lemma_vib_upto_index(m, w, bounds, r1 - 1);
        lemma_vib_row_index(m, w, bounds, r1 - 1, m.cols as int);
        assert(4 * r1 * m.cols == 4 * (r1 - 1) * m.cols + 4 * m.cols) by (nonlinear_arith);
        assert forall|p: int, q: int, ch: int|
            0 <= p < r1 && 0 <= q < m.cols && 0 <= ch < 4 implies #[trigger] spec_vib_upto(
            m,
            w,
            bounds,
            r1,
        )[(p * m.cols + q) * 4 + ch] == spec_vibration_byte(m, w, bounds, p, q, ch) by {
            let base = 4 * (r1 - 1) * m.cols;
            if p < r1 - 1 {
                assert(0 <= (p * m.cols + q) * 4 + ch < base) by (nonlinear_arith)
                    requires
                        0 <= p < r1 - 1,
                        0 <= q < m.cols,
                        0 <= ch < 4,
                        base == 4 * (r1 - 1) * m.cols,
                ;
                assert(spec_vib_upto(m, w, bounds, r1)[(p * m.cols + q) * 4 + ch]
                    == spec_vib_upto(m, w, bounds, r1 - 1)[(p * m.cols + q) * 4 + ch]);
            } else {
                assert((p * m.cols + q) * 4 + ch == base + (q * 4 + ch)) by (nonlinear_arith)
                    requires p == r1 - 1, base == 4 * (r1 - 1) * m.cols;
                assert(spec_vib_upto(m, w, bounds, r1)[base + (q * 4 + ch)] == spec_vib_row(
                    m,
                    w,
                    bounds,
                    r1 - 1,
                    m.cols as int,
                )[q * 4 + ch]);
            }
        }
    }
}

/// Within one row, the four colour counts together never exceed the number
/// of eligible pixels: every coloured pixel is eligible, and each pixel
/// wears one colour.
proof fn lemma_class_row_bound(m: MatView, w: int, bounds: ColorBounds, r: int, c1: int)
    requires
        0 <= c1,
    ensures
        spec_class_row(m, w, bounds, PixelClass::Green, r, c1) + spec_class_row(
            m,
            w,
            bounds,
            PixelClass::Cyan,
            r,
            c1,
        ) + spec_class_row(m, w, bounds, PixelClass::Yellow, r, c1) + spec_class_row(
            m,
            w,
            bounds,
            PixelClass::Red,
            r,
            c1,
        ) <= spec_eligible_row(m, w, r, c1),
        spec_class_row(m, w, bounds, PixelClass::Green, r, c1) >= 0,
        spec_class_row(m, w, bounds, PixelClass::Cyan, r, c1) >= 0,
        spec_class_row(m, w, bounds, PixelClass::Yellow, r, c1) >= 0,
        spec_class_row(m, w, bounds, PixelClass::Red, r, c1) >= 0,
    decreases c1,
{
    if c1 > 0 {
        lemma_class_row_bound(m, w, bounds, r, c1 - 1);
    }
}

/// Over any number of whole rows, the four colour counts together never
/// exceed the number of eligible pixels.
proof fn lemma_class_upto_bound(m: MatView, w: int, bounds: ColorBounds, r1: int)
    requires
        0 <= r1,
    ensures
        spec_class_upto(m, w, bounds, PixelClass::Green, r1) + spec_class_upto(
            m,
            w,
            bounds,
            PixelClass::Cyan,
            r1,
        ) + spec_class_upto(m, w, bounds, PixelClass::Yellow, r1) + spec_class_upto(
            m,
            w,
            bounds,
            PixelClass::Red,
            r1,
        ) <= spec_eligible_upto(m, w, r1),
    decreases r1,
{
    if r1 > 0 {
        lemma_class_upto_bound(m, w, bounds, r1 - 1);
        lemma_class_row_bound(m, w, bounds, r1 - 1, m.cols as int);
    }
}

/// The vibration statistic is bounded by the eligible pixels: the four
/// channel counts together never exceed the number of non-zero pixels that
/// stand outside row 0 and column 0 and whose neighbourhood square stays
/// inside the frame.
pub proof fn lemma_statistic_bounded_by_eligible(m: MatView, w: int, bounds: ColorBounds)
    ensures
        spec_class_total(m, w, bounds, PixelClass::Green) + spec_class_total(
            m,
            w,
            bounds,
            PixelClass::Cyan,
        ) + spec_class_total(m, w, bounds, PixelClass::Yellow) + spec_class_total(
            m,
            w,
            bounds,
            PixelClass::Red,
        ) <= spec_eligible_total(m, w),
{
    lemma_class_upto_bound(m, w, bounds, m.rows as int);
}

/// Every classified pixel wears one of exactly five colours: black,
/// green, cyan, yellow or red, whatever the frame, window and thresholds.
pub proof fn lemma_vibration_pixel_colors(m: MatView, w: int, bounds: ColorBounds, r: int, c: int)
    ensures
        ({
            let color = spec_class_color(spec_vibration_class(m, w, bounds, r, c));
            color == (0u8, 0u8, 0u8, 0u8) || color == (0u8, 255u8, 0u8, 0u8) || color == (
                255u8,
                255u8,
                0u8,
                0u8,
            ) || color == (0u8, 255u8, 255u8, 0u8) || color == (0u8, 0u8, 255u8, 0u8)
        }),
{
}

/// Within one row, a colour's count grows with the column prefix.
proof fn lemma_class_row_mono(
    m: MatView,
    w: int,
    bounds: ColorBounds,
    cls: PixelClass,
    r: int,
    c: int,
    c1: int,
)
    requires
        0 <= c <= c1,
    ensures
        spec_class_row(m, w, bounds, cls, r, c) <= spec_class_row(m, w, bounds, cls, r, c1),
    decreases c1 - c,
{
    if c < c1 {
        lemma_class_row_mono(m, w, bounds, cls, r, c, c1 - 1);
    }
}

/// A colour's count grows with the row prefix.
proof fn lemma_class_upto_mono(
    m: MatView,
    w: int,
    bounds: ColorBounds,
    cls: PixelClass,
    r1: int,
    r2: int,
)
    requires
        0 <= r1 <= r2,
    ensures
        spec_class_upto(m, w, bounds, cls, r1) <= spec_class_upto(m, w, bounds, cls, r2),
    decreases r2 - r1,
{
    if r1 < r2 {
        lemma_class_upto_mono(m, w, bounds, cls, r1, r2 - 1);
        lemma_class_row_mono(m, w, bounds, cls, r2 - 1, 0, m.cols as int);
    }
}

/// A colour's count over any scanned prefix stays within its count over
/// the whole frame.
proof fn lemma_class_partial_le_total(
    m: MatView,
    w: int,
    bounds: ColorBounds,
    cls: PixelClass,
    r: int,
    c: int,
)
    requires
        0 <= r < m.rows,
        0 <= c <= m.cols,
    ensures
        spec_class_upto(m, w, bounds, cls, r) + spec_class_row(m, w, bounds, cls, r, c)
            <= spec_class_total(m, w, bounds, cls),
{
    lemma_class_row_mono(m, w, bounds, cls, r, c, m.cols as int);
    assert(spec_class_upto(m, w, bounds, cls, r + 1) == spec_class_upto(m, w, bounds, cls, r)
        + spec_class_row(m, w, bounds, cls, r, m.cols as int));
    lemma_class_upto_mono(m, w, bounds, cls, r + 1, m.rows as int);
}

/// A colour's count never exceeds the frame's pixel count, so a frame of
/// at most 65535 pixels meets every counter bound the classifier asks
/// for.
pub proof fn lemma_class_total_bounded(m: MatView, w: int, bounds: ColorBounds, cls: PixelClass)
    ensures
        0 <= spec_class_total(m, w, bounds, cls) <= m.rows * m.cols,
{
    lemma_class_upto_cell_bound(m, w, bounds, cls, m.rows as int);
}

/// Row-prefix colour counts are bounded by the cells scanned.
proof fn lemma_class_row_cell_bound(
    m: MatView,
    w: int,
    bounds: ColorBounds,
    cls: PixelClass,
    r: int,
    c1: int,
)
    requires
        0 <= c1,
    ensures
        0 <= spec_class_row(m, w, bounds, cls, r, c1) <= c1,
    decreases c1,
{
    if c1 > 0 {
        lemma_class_row_cell_bound(m, w, bounds, cls, r, c1 - 1);
    }
}

/// Whole-row-prefix colour counts are bounded by the cells scanned.
proof fn lemma_class_upto_cell_bound(
    m: MatView,
    w: int,
    bounds: ColorBounds,
    cls: PixelClass,
    r1: int,
)
    requires
        0 <= r1,
    ensures
        0 <= spec_class_upto(m, w, bounds, cls, r1) <= r1 * m.cols,
    decreases r1,
{
    if r1 > 0 {
        lemma_class_upto_cell_bound(m, w, bounds, cls, r1 - 1);
        lemma_class_row_cell_bound(m, w, bounds, cls, r1 - 1, m.cols as int);
        assert(r1 * m.cols == (r1 - 1) * m.cols + m.cols) by (nonlinear_arith);
    } else {
        assert(r1 * m.cols == 0) by (nonlinear_arith)
            requires r1 == 0;
    }
}

/// The number of non-zero pixels in rows `r0 .. r1`, columns `c0 .. c1` of
/// a single-channel frame, counted by scanning.
fn count_nonzero_rect(image: &CvlMat, r0: usize, r1: usize, c0: usize, c1: usize) -> (k: usize)
    requires
        image@.wf(),
        image@.channels == 1,
        image@.rows * image@.cols <= 0x7fff_ffff,
        r0 <= r1 <= image@.rows,
        c0 <= c1 <= image@.cols,
    ensures
        k == spec_count_rect(image@, r0 as int, r1 as int, c0 as int, c1 as int),
        k <= 0x7fff_ffff,
{
    let mut count: usize = 0;
    let mut rr: usize = r0;
    while rr < r1
        invariant
            image@.wf(),
            image@.channels == 1,
            image@.rows * image@.cols <= 0x7fff_ffff,
            r0 <= rr <= r1 <= image@.rows,
            c0 <= c1 <= image@.cols,
            count == spec_count_rect(image@, r0 as int, rr as int, c0 as int, c1 as int),
            count <= 0x7fff_ffff,
        decreases r1 - rr,
    {
        let mut cc: usize = c0;
        while cc < c1
            invariant
                image@.wf(),
                image@.channels == 1,
                image@.rows * image@.cols <= 0x7fff_ffff,
                r0 <= rr < r1 <= image@.rows,
                c0 <= cc <= c1 <= image@.cols,
                count == spec_count_rect(image@, r0 as int, rr as int, c0 as int, c1 as int)
                    + spec_count_row(image@, rr as int, c0 as int, cc as int),
                count <= 0x7fff_ffff,
            decreases c1 - cc,
        {
            proof {
                lemma_count_rect_bound(image@, r0 as int, rr as int, c0 as int, c1 as int);
                lemma_count_row_bound(image@, rr as int, c0 as int, cc as int);
                assert((rr - r0) * (c1 - c0) + (cc - c0) + 1 <= image@.rows * image@.cols)
                    by (nonlinear_arith)
                    requires
                        0 <= r0 <= rr < r1 <= image@.rows,
                        0 <= c0 <= cc < c1 <= image@.cols,
                ;
                assert(spec_count_row(image@, rr as int, c0 as int, cc as int) <= cc - c0);
            }
            if image.at(rr, cc, 0) != 0 {
                count = count + 1;
            }
            cc = cc + 1;
        }
        rr = rr + 1;
    }
    count
}

/// The colour ladder over a neighbour count, as executable comparisons.
fn classify_count(val: i32, bounds: &ColorBounds) -> (r: PixelClass)
    ensures
        r == spec_classify(val as int, *bounds),
{
    if val >= bounds.get(4) {
        PixelClass::Red
    } else if val >= bounds.get(3) {
        PixelClass::Yellow
    } else if val >= bounds.get(2) {
        PixelClass::Cyan
    } else if val >= bounds.get(1) {
        PixelClass::Green
    } else {
        PixelClass::Black
    }
}

/// What the classifier yields over an input view `m` and window half-side
/// `w`: a well-formed four-channel frame of the input's size tagged as
/// 64-bit floats, one ladder colour in every pixel, and the per-colour
/// counts as the attached statistic.
pub open spec fn spec_vibration_post(m: MatView, w: int, bounds: ColorBounds, o: MatView) -> bool {
    &&& o.wf()
    &&& o.rows == m.rows
    &&& o.cols == m.cols
    &&& o.channels == 4
    &&& o.depth == MatDepth::F64
    &&& forall|p: int, q: int, ch: int|
        0 <= p < m.rows && 0 <= q < m.cols && 0 <= ch < 4 ==> #[trigger] o.at(p, q, ch)
            == spec_vibration_byte(m, w, bounds, p, q, ch)
    &&& o.stat matches Some(st) && st.ch1 == spec_class_total(m, w, bounds, PixelClass::Green)
        && st.ch2 == spec_class_total(m, w, bounds, PixelClass::Cyan) && st.ch3
        == spec_class_total(m, w, bounds, PixelClass::Yellow) && st.ch4 == spec_class_total(
        m,
        w,
        bounds,
        PixelClass::Red,
    )
}

/// The vibration classifier. The output has the input's size, four
/// channels tagged as 64-bit floats, and in every pixel one ladder colour:
/// black wherever the pixel is zero, stands in row 0 or column 0, or has a
/// neighbourhood square that leaves the frame; otherwise the colour of the
/// non-zero count of its neighbourhood. The per-colour counts ride along as
/// the frame's statistic. The `neighbours` argument is accepted for
/// compatibility and not consulted: the ladder's first rung is the
/// effective floor.
pub fn compute_vibration(
    image: &CvlMat,
    neighbours: i32,
    window_size: i32,
    color_bounds: &ColorBounds,
) -> (r: ProcessingResult)
    requires
        image@.wf(),
        image@.channels == 1,
        image@.depth == MatDepth::U8,
        image@.rows * image@.cols <= 0x7fff_ffff,
        window_size >= 0,
        spec_class_total(image@, window_size as int, *color_bounds, PixelClass::Green)
            <= u16::MAX,
        spec_class_total(image@, window_size as int, *color_bounds, PixelClass::Cyan) <= u16::MAX,
        spec_class_total(image@, window_size as int, *color_bounds, PixelClass::Yellow)
            <= u16::MAX,
        spec_class_total(image@, window_size as int, *color_bounds, PixelClass::Red) <= u16::MAX,
    ensures
        r is Ok,
        r matches Ok(o) ==> spec_vibration_post(image@, window_size as int, *color_bounds, o@),
{
    let rows = image.rows();
    let cols = image.columns();
    let w = window_size as usize;
    let ghost wi = window_size as int;
    let ghost b = *color_bounds;
    let mut data: Vec<u8> = Vec::new();
    let mut ch1: u16 = 0;
    let mut ch2: u16 = 0;
    let mut ch3: u16 = 0;
    let mut ch4: u16 = 0;
    let mut p: usize = 0;
    while p < rows
        invariant
            image@.wf(),
            image@.channels == 1,
            image@.rows * image@.cols <= 0x7fff_ffff,
            rows == image@.rows,
            cols == image@.cols,
            w == wi,
            w <= 0x7fff_ffff,
            b == *color_bounds,
            spec_class_total(image@, wi, b, PixelClass::Green) <= u16::MAX,
            spec_class_total(image@, wi, b, PixelClass::Cyan) <= u16::MAX,
            spec_class_total(image@, wi, b, PixelClass::Yellow) <= u16::MAX,
            spec_class_total(image@, wi, b, PixelClass::Red) <= u16::MAX,
            p <= rows,
            data@ == spec_vib_upto(image@, wi, b, p as int),
            ch1 == spec_class_upto(image@, wi, b, PixelClass::Green, p as int),
            ch2 == spec_class_upto(image@, wi, b, PixelClass::Cyan, p as int),
            ch3 == spec_class_upto(image@, wi, b, PixelClass::Yellow, p as int),
            ch4 == spec_class_upto(image@, wi, b, PixelClass::Red, p as int),
        decreases rows - p,
    {
        let mut q: usize = 0;
        while q < cols
            invariant
                image@.wf(),
                image@.channels == 1,
                image@.rows * image@.cols <= 0x7fff_ffff,
                rows == image@.rows,
                cols == image@.cols,
                w == wi,
                w <= 0x7fff_ffff,
                b == *color_bounds,
                spec_class_total(image@, wi, b, PixelClass::Green) <= u16::MAX,
                spec_class_total(image@, wi, b, PixelClass::Cyan) <= u16::MAX,
                spec_class_total(image@, wi, b, PixelClass::Yellow) <= u16::MAX,
                spec_class_total(image@, wi, b, PixelClass::Red) <= u16::MAX,
                p < rows,
                q <= cols,
                data@ == spec_vib_upto(image@, wi, b, p as int) + spec_vib_row(
                    image@,
                    wi,
                    b,
                    p as int,
                    q as int,
                ),
                ch1 == spec_class_upto(image@, wi, b, PixelClass::Green, p as int)
                    + spec_class_row(image@, wi, b, PixelClass::Green, p as int, q as int),
                ch2 == spec_class_upto(image@, wi, b, PixelClass::Cyan, p as int) + spec_class_row(
                    image@,
                    wi,
                    b,
                    PixelClass::Cyan,
                    p as int,
                    q as int,
                ),
                ch3 == spec_class_upto(image@, wi, b, PixelClass::Yellow, p as int)
                    + spec_class_row(image@, wi, b, PixelClass::Yellow, p as int, q as int),
                ch4 == spec_class_upto(image@, wi, b, PixelClass::Red, p as int) + spec_class_row(
                    image@,
                    wi,
                    b,
                    PixelClass::Red,
                    p as int,
                    q as int,
                ),
            decreases cols - q,
        {
            proof {
                assert(image@.rows * 1 <= image@.rows * image@.cols) by (nonlinear_arith)
                    requires image@.cols >= 1, image@.rows >= 0;
                assert(1 * image@.cols <= image@.rows * image@.cols) by (nonlinear_arith)
                    requires image@.rows >= 1, image@.cols >= 0;
            }
            let v = image.at(p, q, 0);
            let cls: PixelClass = if v == 0 || p == 0 || q == 0 {
                PixelClass::Black
            } else if p >= w && q >= w && p + w < rows && q + w < cols {
                let k = count_nonzero_rect(image, p - w, p + w + 1, q - w, q + w + 1);
                classify_count(k as i32, color_bounds)
            } else {
                PixelClass::Black
            };
            proof {
                assert(cls == spec_vibration_class(image@, wi, b, p as int, q as int));
                lemma_index_in_bounds(image@, p as int, q as int, 0);
            }
            proof {
                lemma_class_partial_le_total(image@, wi, b, PixelClass::Green, p as int, q + 1);
                lemma_class_partial_le_total(image@, wi, b, PixelClass::Cyan, p as int, q + 1);
                lemma_class_partial_le_total(image@, wi, b, PixelClass::Yellow, p as int, q + 1);
                lemma_class_partial_le_total(image@, wi, b, PixelClass::Red, p as int, q + 1);
                lemma_class_row_mono(image@, wi, b, PixelClass::Green, p as int, 0, q as int);
                lemma_class_row_mono(image@, wi, b, PixelClass::Cyan, p as int, 0, q as int);
                lemma_class_row_mono(image@, wi, b, PixelClass::Yellow, p as int, 0, q as int);
                lemma_class_row_mono(image@, wi, b, PixelClass::Red, p as int, 0, q as int);
            }
            let color = class_color(cls);
            data.push(color.0);
            data.push(color.1);
            data.push(color.2);
            data.push(color.3);
            match cls {
                PixelClass::Green => {
                    ch1 = ch1 + 1;
                },
                PixelClass::Cyan => {
                    ch2 = ch2 + 1;
                },
                PixelClass::Yellow => {
                    ch3 = ch3 + 1;
                },
                PixelClass::Red => {
                    ch4 = ch4 + 1;
                },
                PixelClass::Black => {},
            }
            q = q + 1;
            proof {
                assert(data@ =~= spec_vib_upto(image@, wi, b, p as int) + spec_vib_row(
                    image@,
                    wi,
                    b,
                    p as int,
                    q as int,
                ));
            }
        }
        p = p + 1;
    }
    proof {
        lemma_vib_upto_index(image@, wi, b, rows as int);
        assert(4 * rows as int * cols as int == rows * cols * 4) by (nonlinear_arith);
    }
    let mut out = CvlMat::new(rows, cols, 4, MatDepth::F64, data);
    let stat = Statistic { ch1, ch2, ch3, ch4 };
    out.set_statistic(stat);
    proof {
        assert forall|pp: int, qq: int, ch: int|
            0 <= pp < image@.rows && 0 <= qq < image@.cols && 0 <= ch < 4 implies #[trigger] out@.at(
            pp,
            qq,
            ch,
        ) == spec_vibration_byte(image@, wi, b, pp, qq, ch) by {
            assert(out@.index_of(pp, qq, ch) == (pp * cols + qq) * 4 + ch) by (nonlinear_arith)
                requires out@.cols == cols, out@.channels == 4;
            assert(spec_vib_upto(image@, wi, b, rows as int)[(pp * image@.cols + qq) * 4 + ch]
                == spec_vibration_byte(image@, wi, b, pp, qq, ch));
        }
    }
    Ok(out)
}


} // verus!
