//! Stateless primitives over frames: grayscale, threshold, the intensity
//! mean, the distribution canvas, and the pairwise and N-way absolute
//! differences.

use vstd::prelude::*;

use crate::errors::ProcessingError;
use crate::mat::{CvlMat, MatDepth, MatView};
use crate::statistic::Statistic;

verus! {

/// A frame or a typed pipeline error.
pub type ProcessingResult = Result<CvlMat, ProcessingError>;

/// The absolute difference of two bytes.
pub open spec fn spec_absdiff(x: u8, y: u8) -> u8 {
    if x >= y {
        (x - y) as u8
    } else {
        (y - x) as u8
    }
}

/// Pixel-wise absolute difference of two equally long buffers.
pub open spec fn spec_absdiff_seq(a: Seq<u8>, b: Seq<u8>) -> Seq<u8> {
    Seq::new(a.len(), |i: int| spec_absdiff(a[i], b[i]))
}

/// The left fold of pairwise absolute differences over a non-empty list of
/// buffers: `acc = d0; acc = |acc - d1|; ...`.
pub open spec fn spec_reduce_abs(ds: Seq<Seq<u8>>) -> Seq<u8>
    decreases ds.len(),
{
    if ds.len() <= 1 {
        ds[0]
    } else {
        spec_absdiff_seq(spec_reduce_abs(ds.drop_last()), ds.last())
    }
}

/// The recursive pairwise reduction: every buffer but the last is replaced
/// by its absolute difference against the last, and the shorter list is
/// reduced again.
pub open spec fn spec_rec_abs(ds: Seq<Seq<u8>>) -> Seq<u8>
    decreases ds.len(),
{
    if ds.len() <= 1 {
        ds[0]
    } else {
        spec_rec_abs(Seq::new((ds.len() - 1) as nat, |i: int| spec_absdiff_seq(ds.last(), ds[i])))
    }
}

/// The pixel buffers of a list of frames.
pub open spec fn spec_datas(frames: Seq<CvlMat>) -> Seq<Seq<u8>> {
    frames.map_values(|m: CvlMat| m@.data)
}

/// All frames well-formed and of one shape.
pub open spec fn spec_uniform(frames: Seq<CvlMat>) -> bool {
    forall|i: int|
        0 <= i < frames.len() ==> (#[trigger] frames[i]@).wf() && frames[i]@.same_shape(frames[0]@)
}

/// An all-zero buffer.
pub open spec fn spec_zero_seq(n: nat) -> Seq<u8> {
    Seq::new(n, |i: int| 0u8)
}

/// The luminance of one blue/green/red pixel, by the fixed-point weighting
/// `(1868 b + 9617 g + 4899 r + 8192) >> 14` (the weights sum to `1 << 14`).
pub open spec fn spec_luma(b: u8, g: u8, r: u8) -> u8 {
    ((1868 * b + 9617 * g + 4899 * r + 8192) / 16384) as u8
}

/// The sum of a byte buffer.
pub open spec fn spec_byte_sum(s: Seq<u8>) -> int
    decreases s.len(),
{
    if s.len() == 0 {
        0
    } else {
        spec_byte_sum(s.drop_last()) + s.last()
    }
}

/// Pixel-wise absolute difference is symmetric in its arguments.
pub proof fn lemma_abs_diff_symmetric(a: Seq<u8>, b: Seq<u8>)
    requires
        a.len() == b.len(),
    ensures
        spec_absdiff_seq(a, b) == spec_absdiff_seq(b, a),
{
    assert(spec_absdiff_seq(a, b) =~= spec_absdiff_seq(b, a));
}

/// The left-fold reduction of `n` copies of one buffer is the zero buffer
/// for even `n`, and the buffer itself for odd `n` (so a window of
/// unchanged frames reduces to a zero frame whenever the window length is
/// even).
pub proof fn lemma_reduce_abs_identical(d: Seq<u8>, n: nat)
    requires
        1 <= n,
    ensures
        n % 2 == 0 ==> spec_reduce_abs(Seq::new(n, |i: int| d)) == spec_zero_seq(d.len()),
        n % 2 == 1 ==> spec_reduce_abs(Seq::new(n, |i: int| d)) == d,
    decreases n,
{
    let ds = Seq::new(n, |i: int| d);
    if n == 1 {
        assert(spec_reduce_abs(ds) == ds[0]);
    } else {
        let prev = Seq::new((n - 1) as nat, |i: int| d);
        assert(ds.drop_last() =~= prev);
        lemma_reduce_abs_identical(d, (n - 1) as nat);
        if n % 2 == 0 {
            assert(spec_absdiff_seq(d, d) =~= spec_zero_seq(d.len()));
        } else {
            assert(spec_absdiff_seq(spec_zero_seq(d.len()), d) =~= d);
        }
    }
}

/// What the grayscale conversion yields: a well-formed single-channel
/// 8-bit frame of the input's size, without a statistic, whose every pixel
/// is the luminance of the input's pixel.
pub open spec fn spec_grayscale_post(f: MatView, g: MatView) -> bool {
    &&& g.wf()
    &&& g.rows == f.rows
    &&& g.cols == f.cols
    &&& g.channels == 1
    &&& g.depth == MatDepth::U8
    &&& g.stat is None
    &&& forall|p: int, q: int|
        0 <= p < f.rows && 0 <= q < f.cols ==> #[trigger] g.at(p, q, 0) == spec_luma(
            f.at(p, q, 0),
            f.at(p, q, 1),
            f.at(p, q, 2),
        )
}

/// Both reductions of a single buffer yield that buffer unchanged.
pub proof fn lemma_reduce_single(d: Seq<u8>)
    ensures
        spec_reduce_abs(seq![d]) == d,
        spec_rec_abs(seq![d]) == d,
{
}

/// Grayscale conversion: a three-channel blue/green/red frame becomes a
/// single-channel luminance frame of the same size; any other input is
/// rejected.
pub fn gen_grayscale_frame(frame: &CvlMat) -> (r: ProcessingResult)
    requires
        frame@.wf(),
    ensures
        r is Ok <==> frame@.channels == 3 && frame@.depth == MatDepth::U8,
        r matches Ok(g) ==> spec_grayscale_post(frame@, g@),
        r matches Err(e) ==> e is GenGrayScale,
{
    if frame.channels() != 3 || !is_u8_depth(frame) {
        return Err(
            ProcessingError::GenGrayScale(
                "grayscale conversion needs an 8-bit three-channel frame".to_owned(),
            ),
        );
    }
    let rows = frame.rows();
    let cols = frame.columns();
    let mut data: Vec<u8> = Vec::new();
    let mut p: usize = 0;
    while p < rows
        invariant
            frame@.wf(),
            frame@.channels == 3,
            rows == frame@.rows,
            cols == frame@.cols,
            p <= rows,
            data@.len() == p * cols,
            forall|i: int, j: int|
                0 <= i < p && 0 <= j < cols ==> #[trigger] data@[i * cols + j] == spec_luma(
                    frame@.at(i, j, 0),
                    frame@.at(i, j, 1),
                    frame@.at(i, j, 2),
                ),
        decreases rows - p,
    {
        let mut q: usize = 0;
        while q < cols
            invariant
                frame@.wf(),
                frame@.channels == 3,
                rows == frame@.rows,
                cols == frame@.cols,
                p < rows,
                q <= cols,
                data@.len() == p * cols + q,
                forall|i: int, j: int|
                    0 <= i < p && 0 <= j < cols ==> #[trigger] data@[i * cols + j] == spec_luma(
                        frame@.at(i, j, 0),
                        frame@.at(i, j, 1),
                        frame@.at(i, j, 2),
                    ),
                forall|j: int|
                    0 <= j < q ==> #[trigger] data@[p * cols + j] == spec_luma(
                        frame@.at(p as int, j, 0),
                        frame@.at(p as int, j, 1),
                        frame@.at(p as int, j, 2),
                    ),
            decreases cols - q,
        {
            let b = frame.at(p, q, 0);
            let g = frame.at(p, q, 1);
            let rr = frame.at(p, q, 2);
            let weighted: u32 = 1868 * (b as u32) + 9617 * (g as u32) + 4899 * (rr as u32) + 8192;
            proof {
                assert(weighted / 16384 < 256) by (nonlinear_arith)
                    requires weighted < 4194304;
            }
            let y: u8 = (weighted / 16384) as u8;
            data.push(y);
            q = q + 1;
            proof {
                lemma_row_major_distinct(p as int, q as int, cols as int);
            }
        }
        p = p + 1;
        proof {
            assert((p - 1) * cols + cols == p * cols) by (nonlinear_arith);
        }
    }
    proof {
        assert(rows * cols * 1 == rows * cols) by (nonlinear_arith);
    }
    let out = CvlMat::new(rows, cols, 1, MatDepth::U8, data);
    proof {
        assert forall|i: int, j: int| 0 <= i < frame@.rows && 0 <= j < frame@.cols implies
            #[trigger] out@.at(i, j, 0) == spec_luma(
            frame@.at(i, j, 0),
            frame@.at(i, j, 1),
            frame@.at(i, j, 2),
        ) by {
            assert(out@.index_of(i, j, 0) == i * cols + j) by (nonlinear_arith)
                requires out@.cols == cols, out@.channels == 1;
            assert(out@.data[i * cols + j] == spec_luma(
                frame@.at(i, j, 0),
                frame@.at(i, j, 1),
                frame@.at(i, j, 2),
            ));
        }
    }
    Ok(out)
}

/// Whether the element type of a frame is 8-bit unsigned.
fn is_u8_depth(frame: &CvlMat) -> (r: bool)
    ensures
        r == (frame@.depth == MatDepth::U8),
{
    matches!(frame.depth_tag(), MatDepth::U8)
}

/// Appending one value at `p * cols + q` keeps every earlier row-major
/// position intact; a helper fact for the scan loops.
proof fn lemma_row_major_distinct(p: int, q: int, cols: int)
    requires
        0 < q <= cols,
        0 <= p,
    ensures
        forall|i: int| 0 <= i < p ==> #[trigger] (i * cols) + cols <= p * cols,
        p * cols + q - 1 < p * cols + cols,
{
    assert forall|i: int| 0 <= i < p implies #[trigger] (i * cols) + cols <= p * cols by {
        assert((i + 1) * cols <= p * cols && (i + 1) * cols == i * cols + cols)
            by (nonlinear_arith)
            requires 0 <= i < p, 0 < cols;
    }
}

/// Binary threshold: every byte strictly above `thresh` becomes `maxval`,
/// every other byte 0. Works per channel component; rejects frames whose
/// element type is not 8-bit.
pub fn gen_threshold_frame(frame: &CvlMat, thresh: i32, maxval: u8) -> (r: ProcessingResult)
    requires
        frame@.wf(),
    ensures
        r is Ok <==> frame@.depth == MatDepth::U8,
        r matches Ok(t) ==> {
            &&& t@.wf()
            &&& t@.same_shape(frame@)
            &&& t@.stat is None
            &&& t@.data.len() == frame@.data.len()
            &&& forall|i: int|
                0 <= i < frame@.data.len() ==> #[trigger] t@.data[i] == (if frame@.data[i]
                    > thresh {
                    maxval
                } else {
                    0u8
                })
        },
        r matches Err(e) ==> e is GenThreshold,
{
    if !is_u8_depth(frame) {
        return Err(
            ProcessingError::GenThreshold("thresholding needs an 8-bit frame".to_owned()),
        );
    }
    let src = frame.to_slice();
    let n = src.len();
    let mut data: Vec<u8> = Vec::new();
    let mut i: usize = 0;
    while i < n
        invariant
            n == frame@.data.len(),
            src@ == frame@.data,
            i <= n,
            data@.len() == i,
            forall|j: int|
                0 <= j < i ==> #[trigger] data@[j] == (if frame@.data[j] > thresh {
                    maxval
                } else {
                    0u8
                }),
        decreases n - i,
    {
        let v = src[i];
        if (v as i32) > thresh {
            data.push(maxval);
        } else {
            data.push(0);
        }
        i = i + 1;
    }
    let out = CvlMat::new(frame.rows(), frame.columns(), frame.channels(), frame.depth_tag(), data);
    Ok(out)
}

/// The intensity sum and pixel count of a single-channel 8-bit frame, or
/// nothing for an empty frame; the arithmetic mean is their quotient.
pub fn mean_intensity(frame: &CvlMat) -> (r: Option<(u64, usize)>)
    requires
        frame@.wf(),
        frame@.channels == 1,
        frame@.rows * frame@.cols <= 0xffff_ffff,
    ensures
        r is Some <==> frame@.rows * frame@.cols > 0,
        r matches Some(p) ==> p.0 == spec_byte_sum(frame@.data) && p.1 == frame@.rows
            * frame@.cols,
{
    let src = frame.to_slice();
    let n = src.len();
    proof {
        assert(frame@.rows * frame@.cols * 1 == frame@.rows * frame@.cols) by (nonlinear_arith);
    }
    if n == 0 {
        return None;
    }
    let mut sum: u64 = 0;
    let mut i: usize = 0;
    while i < n
        invariant
            n == frame@.data.len(),
            n <= 0xffff_ffff,
            src@ == frame@.data,
            i <= n,
            sum == spec_byte_sum(frame@.data.take(i as int)),
            sum <= i * 255,
        decreases n - i,
    {
        proof {
            let taken = frame@.data.take(i + 1);
            assert(taken.drop_last() =~= frame@.data.take(i as int));
            assert(i * 255 + 255 == (i + 1) * 255) by (nonlinear_arith);
            assert((i + 1) * 255 <= 0xffff_ffff * 255) by (nonlinear_arith)
                requires i + 1 <= 0xffff_ffff;
        }
        sum = sum + src[i] as u64;
        i = i + 1;
    }
    proof {
        assert(frame@.data.take(n as int) =~= frame@.data);
    }
    Some((sum, n))
}

/// The mean fed to the sigma-adaptive edge detector: the intensity sum and
/// count of the frame, or a zero mean (`0 / 1`) when the frame is empty and
/// the mean is undefined.
pub fn mean_intensity_or_zero(frame: &CvlMat) -> (r: (u64, usize))
    requires
        frame@.wf(),
        frame@.channels == 1,
        frame@.rows * frame@.cols <= 0xffff_ffff,
    ensures
        frame@.rows * frame@.cols == 0 ==> r == (0u64, 1usize),
        frame@.rows * frame@.cols > 0 ==> r.0 == spec_byte_sum(frame@.data) && r.1 == frame@.rows
            * frame@.cols,
{
    match mean_intensity(frame) {
        Some(p) => p,
        None => (0, 1),
    }
}

/// Pairwise absolute difference of two frames of one shape; differently
/// shaped or typed frames are rejected.
pub fn gen_diff_frame(img1: &CvlMat, img2: &CvlMat) -> (r: ProcessingResult)
    requires
        img1@.wf(),
        img2@.wf(),
    ensures
        r is Ok <==> img1@.same_shape(img2@),
        r matches Ok(d) ==> {
            &&& d@.wf()
            &&& d@.same_shape(img1@)
            &&& d@.stat is None
            &&& d@.data == spec_absdiff_seq(img1@.data, img2@.data)
        },
        r matches Err(e) ==> e is GenDifferences,
{
    if !(img1.rows() == img2.rows() && img1.columns() == img2.columns() && img1.channels()
        == img2.channels() && same_depth(img1, img2)) {
        return Err(
            ProcessingError::GenDifferences(
                "absolute difference needs two frames of one size and type".to_owned(),
            ),
        );
    }
    let a = img1.to_slice();
    let b = img2.to_slice();
    let n = a.len();
    let mut data: Vec<u8> = Vec::new();
    let mut i: usize = 0;
    while i < n
        invariant
            n == img1@.data.len(),
            img2@.data.len() == n,
            a@ == img1@.data,
            b@ == img2@.data,
            i <= n,
            data@.len() == i,
            forall|j: int|
                0 <= j < i ==> #[trigger] data@[j] == spec_absdiff(img1@.data[j], img2@.data[j]),
        decreases n - i,
    {
        let x = a[i];
        let y = b[i];
        if x >= y {
            data.push(x - y);
        } else {
            data.push(y - x);
        }
        i = i + 1;
    }
    let out = CvlMat::new(img1.rows(), img1.columns(), img1.channels(), img1.depth_tag(), data);
    proof {
        assert(out@.data =~= spec_absdiff_seq(img1@.data, img2@.data));
    }
    Ok(out)
}

/// The recursive N-way reduction: while more than one frame is left, every
/// frame but the last is replaced by its absolute difference against the
/// last, and the shorter list is reduced again. A single frame is returned
/// unchanged.
pub fn gen_abs_frame(frame_images: &Vec<CvlMat>) -> (r: ProcessingResult)
    requires
        frame_images@.len() >= 1,
        spec_uniform(frame_images@),
    ensures
        r matches Ok(o) ==> {
            &&& o@.wf()
            &&& o@.same_shape(frame_images@[0]@)
            &&& o@.data == spec_rec_abs(spec_datas(frame_images@))
            &&& o@.stat == (if frame_images@.len() == 1 {
                frame_images@[0]@.stat
            } else {
                Option::<Statistic>::None
            })
        },
        r is Ok,
    decreases frame_images@.len(),
{
    let n = frame_images.len();
    if n <= 1 {
        return Ok(frame_images[0].duplicate());
    }
    let base = &frame_images[n - 1];
    let mut differences: Vec<CvlMat> = Vec::new();
    let mut i: usize = 0;
    while i < n - 1
        invariant
            n == frame_images@.len(),
            2 <= n,
            spec_uniform(frame_images@),
            base@ == frame_images@[n - 1]@,
            i <= n - 1,
            differences@.len() == i,
            forall|j: int|
                0 <= j < i ==> (#[trigger] differences@[j]@).wf() && differences@[j]@.same_shape(
                    frame_images@[0]@,
                ) && differences@[j]@.stat is None && differences@[j]@.data == spec_absdiff_seq(
                    frame_images@[n - 1]@.data,
                    frame_images@[j]@.data,
                ),
        decreases n - 1 - i,
    {
        let d = match gen_diff_frame(base, &frame_images[i]) {
            Ok(d) => d,
            Err(_) => {
                proof {
                    assert(false);
                }
                CvlMat::default()
            },
        };
        differences.push(d);
        i = i + 1;
    }
    proof {
        assert forall|j: int| 0 <= j < differences@.len() implies (#[trigger] differences@[j]@).wf()
            && differences@[j]@.same_shape(differences@[0]@) by {
            assert(differences@[j]@.same_shape(frame_images@[0]@));
            assert(differences@[0]@.same_shape(frame_images@[0]@));
        }
    }
    let result = gen_abs_frame(&differences);
    proof {
        let ds = spec_datas(frame_images@);
        assert forall|j: int| 0 <= j < n - 1 implies #[trigger] spec_datas(differences@)[j]
            == spec_absdiff_seq(ds.last(), ds[j]) by {
            assert(differences@[j]@.data == spec_absdiff_seq(
                frame_images@[n - 1]@.data,
                frame_images@[j]@.data,
            ));
        }
        assert(spec_datas(differences@) =~= Seq::new(
            (ds.len() - 1) as nat,
            |i: int| spec_absdiff_seq(ds.last(), ds[i]),
        ));
        assert(spec_rec_abs(ds) == spec_rec_abs(spec_datas(differences@)));
        if result is Ok {
            let o = result->Ok_0;
            assert(o@.same_shape(frame_images@[0]@));
            assert(o@.stat is None);
        }
    }
    result
}

/// The left-fold N-way reduction: the first frame is the accumulator and
/// every later frame is folded in by pairwise absolute difference. An empty
/// list is the one failure.
pub fn gen_abs_frame_reduce(frame_images: &Vec<CvlMat>) -> (r: ProcessingResult)
    requires
        spec_uniform(frame_images@),
    ensures
        r is Ok <==> frame_images@.len() >= 1,
        r matches Ok(o) ==> {
            &&& o@.wf()
            &&& o@.same_shape(frame_images@[0]@)
            &&& o@.data == spec_reduce_abs(spec_datas(frame_images@))
            &&& o@.stat == (if frame_images@.len() == 1 {
                frame_images@[0]@.stat
            } else {
                Option::<Statistic>::None
            })
        },
        r matches Err(e) ==> e == ProcessingError::GenAbs,
{
    let n = frame_images.len();
    if n == 0 {
        return Err(ProcessingError::GenAbs);
    }
    let mut acc = frame_images[0].duplicate();
    let mut i: usize = 1;
    proof {
        assert(spec_datas(frame_images@).subrange(0, 1) =~= seq![frame_images@[0]@.data]);
    }
    while i < n
        invariant
            n == frame_images@.len(),
            1 <= i <= n,
            spec_uniform(frame_images@),
            acc@.wf(),
            acc@.same_shape(frame_images@[0]@),
            acc@.data == spec_reduce_abs(spec_datas(frame_images@).subrange(0, i as int)),
            acc@.stat == (if i == 1 {
                frame_images@[0]@.stat
            } else {
                Option::<Statistic>::None
            }),
        decreases n - i,
    {
        let d = match gen_diff_frame(&acc, &frame_images[i]) {
            Ok(d) => d,
            Err(_) => {
                proof {
                    assert(false);
                }
                CvlMat::default()
            },
        };
        proof {
            let ds = spec_datas(frame_images@);
            assert(ds.subrange(0, i + 1).drop_last() =~= ds.subrange(0, i as int));
            assert(ds.subrange(0, i + 1).last() == ds[i as int]);
        }
        acc = d;
        i = i + 1;
    }
    proof {
        assert(spec_datas(frame_images@).subrange(0, n as int) =~= spec_datas(frame_images@));
    }
    Ok(acc)
}

/// The distribution view of a frame: a zeroed three-channel 8-bit canvas
/// of the input's size. The gradient-distribution overlay that would
/// colour the canvas is not populated, so the canvas is the whole result.
/// An empty frame has no gradients to distribute and is not accepted.
pub fn gen_distribution_frame(image: &CvlMat, thresh: i32, maxval: u8) -> (r: ProcessingResult)
    requires
        image@.wf(),
        image@.rows > 0,
        image@.cols > 0,
        image@.rows * image@.cols * 3 <= usize::MAX,
    ensures
        r is Ok,
        r matches Ok(o) ==> {
            &&& o@.wf()
            &&& o@.rows == image@.rows
            &&& o@.cols == image@.cols
            &&& o@.channels == 3
            &&& o@.depth == MatDepth::U8
            &&& o@.stat is None
            &&& o@.data == spec_zero_seq((image@.rows * image@.cols * 3) as nat)
        },
{
    let rows = image.rows();
    let cols = image.columns();
    proof {
        assert(rows * cols <= rows * cols * 3) by (nonlinear_arith)
            requires rows >= 0, cols >= 0;
    }
    let total: usize = rows * cols * 3;
    let mut data: Vec<u8> = Vec::new();
    let mut i: usize = 0;
    while i < total
        invariant
            i <= total,
            data@.len() == i,
            forall|j: int| 0 <= j < i ==> #[trigger] data@[j] == 0u8,
        decreases total - i,
    {
        data.push(0);
        i = i + 1;
    }
    proof {
        assert(data@ =~= spec_zero_seq((rows * cols * 3) as nat));
    }
    Ok(CvlMat::new(rows, cols, 3, MatDepth::U8, data))
}

/// Whether two frames share one element type.
fn same_depth(a: &CvlMat, b: &CvlMat) -> (r: bool)
    ensures
        r == (a@.depth == b@.depth),
{
    match (a.depth_tag(), b.depth_tag()) {
        (MatDepth::U8, MatDepth::U8) => true,
        (MatDepth::F64, MatDepth::F64) => true,
        _ => false,
    }
}

} // verus!
