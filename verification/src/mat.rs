//! A 2D raster frame: dimensions, channel count, element-type tag, pixel
//! bytes, and an optional side-channel carrying the statistic of a vibration
//! frame.

use vstd::prelude::*;

use crate::statistic::Statistic;

verus! {

/// The type tag of a three-channel 8-bit blue/green/red frame.
pub const BGR_CV_IMAGE: usize = 16;

/// The type tag of a single-channel 8-bit frame.
pub const ANY_2_DIM_IMAGE: usize = 0;

/// The element type of a frame: 8-bit unsigned intermediates, or the
/// 64-bit-float tag of the four-channel vibration output (whose channel
/// values are always 0 or 255 and are therefore stored as one byte each).
#[derive(Copy, Clone, Debug, PartialEq, Eq, Structural)]
pub enum MatDepth {
    U8,
    F64,
}

/// The abstract value of a frame.
pub struct MatView {
    pub rows: nat,
    pub cols: nat,
    pub channels: nat,
    pub depth: MatDepth,
    pub data: Seq<u8>,
    pub stat: Option<Statistic>,
}

impl MatView {
    /// A well-formed frame holds exactly one byte per channel component.
    pub open spec fn wf(self) -> bool {
        &&& self.data.len() == self.rows * self.cols * self.channels
        &&& 1 <= self.channels <= 4
    }

    /// The flat index of channel `ch` of the pixel at row `r`, column `c`.
    pub open spec fn index_of(self, r: int, c: int, ch: int) -> int {
        (r * self.cols + c) * self.channels + ch
    }

    /// Channel `ch` of the pixel at row `r`, column `c`.
    pub open spec fn at(self, r: int, c: int, ch: int) -> u8 {
        self.data[self.index_of(r, c, ch)]
    }

    /// Equal size, channel count and element type.
    pub open spec fn same_shape(self, other: MatView) -> bool {
        &&& self.rows == other.rows
        &&& self.cols == other.cols
        &&& self.channels == other.channels
        &&& self.depth == other.depth
    }
}

/// A frame handle: the stable currency of the pipeline stages.
#[derive(Clone)]
pub struct CvlMat {
    rows: usize,
    cols: usize,
    channels: usize,
    depth: MatDepth,
    data: Vec<u8>,
    stat: Option<Statistic>,
}

impl View for CvlMat {
    type V = MatView;

    closed spec fn view(&self) -> MatView {
        MatView {
            rows: self.rows as nat,
            cols: self.cols as nat,
            channels: self.channels as nat,
            depth: self.depth,
            data: self.data@,
            stat: self.stat,
        }
    }
}

impl CvlMat {
    /// A frame over its raw parts. The buffer must hold one byte per channel
    /// component.
    pub fn new(rows: usize, cols: usize, channels: usize, depth: MatDepth, data: Vec<u8>) -> (r:
        CvlMat)
        requires
            1 <= channels <= 4,
            data@.len() == rows * cols * channels,
        ensures
            r@ == (MatView {
                rows: rows as nat,
                cols: cols as nat,
                channels: channels as nat,
                depth,
                data: data@,
                stat: None,
            }),
            r@.wf(),
    {
        CvlMat { rows, cols, channels, depth, data, stat: None }
    }

    /// The number of pixel rows.
    pub fn rows(&self) -> (r: usize)
        ensures
            r == self@.rows,
    {
        self.rows
    }

    /// The number of pixel columns.
    pub fn columns(&self) -> (r: usize)
        ensures
            r == self@.cols,
    {
        self.cols
    }

    /// The number of channels per pixel.
    pub fn channels(&self) -> (r: usize)
        ensures
            r == self@.channels,
    {
        self.channels
    }

    /// The element type tag of a frame, encoding depth and channel count in
    /// one number: 8-bit depth counts 0, 64-bit-float depth counts 6, and
    /// every channel beyond the first adds 8.
    pub open spec fn spec_typ(v: MatView) -> int {
        (match v.depth {
            MatDepth::U8 => 0int,
            MatDepth::F64 => 6int,
        }) + 8 * (v.channels - 1)
    }

    /// The element type tag of this frame.
    pub fn typ(&self) -> (r: usize)
        requires
            self@.wf(),
        ensures
            r == Self::spec_typ(self@),
    {
        let depth_code: usize = match self.depth {
            MatDepth::U8 => 0,
            MatDepth::F64 => 6,
        };
        depth_code + 8 * (self.channels - 1)
    }

    /// The dimensionality: 2 for any allocated raster, 0 for the empty
    /// placeholder frame.
    pub open spec fn spec_dims(v: MatView) -> int {
        if v.rows == 0 && v.cols == 0 {
            0int
        } else {
            2int
        }
    }

    /// The dimensionality of this frame.
    pub fn dims(&self) -> (r: usize)
        ensures
            r == Self::spec_dims(self@),
    {
        if self.rows == 0 && self.cols == 0 {
            0
        } else {
            2
        }
    }

    /// The raw pixel bytes, row-major, channels interleaved.
    pub fn to_slice(&self) -> (r: &[u8])
        ensures
            r@ == self@.data,
    {
        self.data.as_slice()
    }

    /// Channel `ch` of the pixel at row `r`, column `c`.
    pub fn at(&self, r: usize, c: usize, ch: usize) -> (b: u8)
        requires
            self@.wf(),
            r < self@.rows,
            c < self@.cols,
            ch < self@.channels,
        ensures
            b == self@.at(r as int, c as int, ch as int),
    {
        let n = self.data.len();
        proof {
            lemma_index_in_bounds(self@, r as int, c as int, ch as int);
        }
        self.data[(r * self.cols + c) * self.channels + ch]
    }

    /// The element type tag alone.
    pub fn depth_tag(&self) -> (r: MatDepth)
        ensures
            r == self@.depth,
    {
        self.depth
    }

    /// The statistic attached by the vibration classifier, if any.
    pub fn statistic(&self) -> (r: Option<Statistic>)
        ensures
            r == self@.stat,
    {
        self.stat
    }

    /// Attaches a statistic as the frame's side channel.
    pub fn set_statistic(&mut self, stat: Statistic)
        ensures
            final(self)@ == (MatView { stat: Some(stat), ..old(self)@ }),
    {
        self.stat = Some(stat);
    }

    /// An equal copy of the frame.
    pub fn duplicate(&self) -> (r: CvlMat)
        ensures
            r@ == self@,
    {
        let data = clone_bytes(&self.data);
        let r = CvlMat {
            rows: self.rows,
            cols: self.cols,
            channels: self.channels,
            depth: self.depth,
            data,
            stat: self.stat,
        };
        assert(r@ =~= self@);
        r
    }
}

impl Default for CvlMat {
    /// The empty placeholder frame that a fresh chain slot holds.
    fn default() -> (r: CvlMat)
        ensures
            r@ == (MatView {
                rows: 0nat,
                cols: 0nat,
                channels: 1nat,
                depth: MatDepth::U8,
                data: Seq::<u8>::empty(),
                stat: None,
            }),
            r@.wf(),
    {
        let r = CvlMat {
            rows: 0,
            cols: 0,
            channels: 1,
            depth: MatDepth::U8,
            data: Vec::new(),
            stat: None,
        };
        assert(r@.data =~= Seq::<u8>::empty());
        r
    }
}

/// An equal copy of a byte buffer.
pub fn clone_bytes(v: &Vec<u8>) -> (r: Vec<u8>)
    ensures
        r@ == v@,
{
    let r = v.clone();
    assert forall|i: int| 0 <= i < v@.len() implies r@[i] == v@[i] by {
        assert(cloned::<u8>(v@[i], r@[i]));
    }
    assert(r@ =~= v@);
    r
}

/// A flat channel index lies inside a well-formed frame's buffer.
pub proof fn lemma_index_in_bounds(v: MatView, r: int, c: int, ch: int)
    requires
        v.wf(),
        0 <= r < v.rows,
        0 <= c < v.cols,
        0 <= ch < v.channels,
    ensures
        0 <= v.index_of(r, c, ch) < v.data.len(),
        v.index_of(r, c, ch) == (r * v.cols + c) * v.channels + ch,
        0 <= r * v.cols + c < v.rows * v.cols,
        v.rows * v.cols <= v.data.len(),
{
    assert(0 <= (r * v.cols + c) * v.channels + ch < v.rows * v.cols * v.channels
        && 0 <= r * v.cols + c < v.rows * v.cols
        && v.rows * v.cols <= v.rows * v.cols * v.channels) by (nonlinear_arith)
        requires
            0 <= r < v.rows,
            0 <= c < v.cols,
            0 <= ch < v.channels,
    ;
}

} // verus!
