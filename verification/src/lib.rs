//! Core of a micro-vibration detector for video streams.
//!
//! A sliding window of recent frames is reduced through pairwise absolute
//! differences; every non-zero pixel of the reduced frame is classified by
//! how many of its neighbours are also non-zero; the per-class counts feed a
//! short history whose per-channel deviation serves as an agitation signal.

pub mod bounds;
pub mod capture;
pub mod chain;
pub mod colors;
pub mod cvl;
pub mod deque;
pub mod errors;
pub mod mat;
pub mod statistic;
pub mod ui;
pub mod vibration;

pub use bounds::ColorBounds;
pub use capture::{parse_device_index, StreamSource};
pub use chain::{ChainProcessing, ProcessingSettings};
pub use colors::PixelClass;
pub use cvl::{
    gen_abs_frame, gen_abs_frame_reduce, gen_diff_frame, gen_distribution_frame,
    gen_grayscale_frame, gen_threshold_frame, mean_intensity, mean_intensity_or_zero,
    ProcessingResult,
};
pub use deque::CvlMatDeque;
pub use errors::{CaptureError, ProcessingError, ReadFrameError};
pub use mat::{CvlMat, MatDepth, ANY_2_DIM_IMAGE, BGR_CV_IMAGE};
pub use statistic::{compute_statistic, DispersionSsd, Statistic};
pub use ui::{signal_for_key, WindowSignals};
pub use vibration::compute_vibration;
