//! Error taxonomy of the processing pipeline and of the stream adapters.

use vstd::prelude::*;

verus! {

/// A failure of one pipeline stage. `GenAbs` doubles as the warm-up signal:
/// the window reductions report it while the frame history is still short of
/// its configured length.
#[derive(Debug, Clone, PartialEq, Eq)]
pub enum ProcessingError {
    ComputeMedian,
    ComputeVibration(String),
    GenAbs,
    GenCanny(String),
    GenDifferences(String),
    GenDistribution(String),
    GenGrayScale(String),
    GenThreshold(String),
    GenSobel(String),
    ComputeStatistic,
}

impl ProcessingError {
    /// An equal copy, usable where the error must both stay in place and be
    /// handed out.
    pub fn duplicate(&self) -> (r: ProcessingError)
        ensures
            r == *self,
    {
        match self {
            ProcessingError::ComputeMedian => ProcessingError::ComputeMedian,
            ProcessingError::ComputeVibration(m) => ProcessingError::ComputeVibration(m.clone()),
            ProcessingError::GenAbs => ProcessingError::GenAbs,
            ProcessingError::GenCanny(m) => ProcessingError::GenCanny(m.clone()),
            ProcessingError::GenDifferences(m) => ProcessingError::GenDifferences(m.clone()),
            ProcessingError::GenDistribution(m) => ProcessingError::GenDistribution(m.clone()),
            ProcessingError::GenGrayScale(m) => ProcessingError::GenGrayScale(m.clone()),
            ProcessingError::GenThreshold(m) => ProcessingError::GenThreshold(m.clone()),
            ProcessingError::GenSobel(m) => ProcessingError::GenSobel(m.clone()),
            ProcessingError::ComputeStatistic => ProcessingError::ComputeStatistic,
        }
    }
}

/// A failure while opening or closing a video stream.
#[derive(Debug, Clone, PartialEq, Eq)]
pub enum CaptureError {
    OpenStream(String),
    CloseStream,
    UnsupportedSource,
}

/// A failure while reading the next frame of an open stream.
#[derive(Debug, Clone, PartialEq, Eq)]
pub enum ReadFrameError {
    NextFrameError,
}

} // verus!
