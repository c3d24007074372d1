//! The pipeline coordinator: a single result slot that the stages read and
//! write, a frame history and a statistic history as sliding windows, and
//! the cached dispersion of the statistic history.

use vstd::prelude::*;

use crate::bounds::ColorBounds;
use crate::colors::PixelClass;
use crate::cvl::{
    gen_abs_frame, gen_abs_frame_reduce, gen_grayscale_frame, spec_datas, spec_grayscale_post,
    spec_rec_abs, spec_reduce_abs, spec_uniform,
};
use crate::deque::{spec_ring_push, spec_ring_pushed, CvlMatDeque};
use crate::errors::ProcessingError;
use crate::mat::CvlMat;
use crate::statistic::{compute_statistic, spec_ssd, DispersionSsd, Statistic};
use crate::vibration::{compute_vibration, spec_class_total, spec_vibration_post};

verus! {

/// The configuration of a chain, fixed at construction. The window length
/// `frames_count` must be at least four: the dispersion centres on the
/// channel means of the first four history entries. The float-valued knobs
/// of the edge detector and of the dispersion scaling (the sigma band and
/// the normalization divisor) belong to the callers that run those
/// stages.
pub struct ProcessingSettings {
    pub frames_count: usize,
    pub neighbours: i32,
    pub window_size: i32,
    pub is_reduced_abs: bool,
    pub canny_ksize: i32,
    pub canny_is_l2: bool,
}

impl Default for ProcessingSettings {
    /// The default configuration: a window of 15 frames, a neighbour floor
    /// of 8, a 5-by-5 neighbourhood, the fold-style reduction, and a
    /// 3-aperture edge detector with the L2 gradient norm.
    fn default() -> (r: ProcessingSettings)
        ensures
            r.frames_count == 15,
            r.neighbours == 8,
            r.window_size == 2,
            r.is_reduced_abs == true,
            r.canny_ksize == 3,
            r.canny_is_l2 == true,
    {
        ProcessingSettings {
            frames_count: 15,
            neighbours: 8,
            window_size: 2,
            is_reduced_abs: true,
            canny_ksize: 3,
            canny_is_l2: true,
        }
    }
}

/// The pipeline coordinator. Stages read the result slot, do their work,
/// and write the slot back; an error in the slot short-circuits the
/// downstream stages.
pub struct ChainProcessing {
    result: Result<CvlMat, ProcessingError>,
    frames: CvlMatDeque<CvlMat>,
    statistics: CvlMatDeque<Statistic>,
    dispersion: Option<DispersionSsd>,
    bounds: ColorBounds,
    settings: ProcessingSettings,
}

impl ChainProcessing {
    /// The current value of the result slot.
    pub closed spec fn spec_result(&self) -> Result<CvlMat, ProcessingError> {
        self.result
    }

    /// The frame history, oldest first.
    pub closed spec fn spec_frames(&self) -> Seq<CvlMat> {
        self.frames@
    }

    /// The statistic history, oldest first.
    pub closed spec fn spec_stats(&self) -> Seq<Statistic> {
        self.statistics@
    }

    /// The cached dispersion, present once the statistic history has
    /// reached the window length.
    pub closed spec fn spec_dispersion(&self) -> Option<DispersionSsd> {
        self.dispersion
    }

    /// The colour thresholds the classifier uses.
    pub closed spec fn spec_bounds(&self) -> ColorBounds {
        self.bounds
    }

    /// The configuration.
    pub closed spec fn spec_settings(&self) -> ProcessingSettings {
        self.settings
    }

    /// The chain's invariant: both histories are windows of the configured
    /// length and within it, the window length is at least four and fits a
    /// 32-bit count, the neighbourhood half-side is non-negative, and
    /// every frame held anywhere is well-formed.
    pub open spec fn wf(&self) -> bool {
        &&& self.spec_settings().frames_count >= 4
        &&& self.spec_settings().frames_count < 0x1_0000_0000
        &&& self.spec_settings().window_size >= 0
        &&& self.spec_frames().len() <= self.spec_settings().frames_count
        &&& self.spec_stats().len() <= self.spec_settings().frames_count
        &&& (forall|i: int|
            0 <= i < self.spec_frames().len() ==> (#[trigger] self.spec_frames()[i]@).wf())
        &&& (self.spec_result() matches Ok(f) ==> f@.wf())
    }

    /// The capacities behind the histories match the configuration; an
    /// implementation detail that the stage proofs carry along.
    pub closed spec fn wf_caps(&self) -> bool {
        &&& self.frames.spec_max_size() == self.settings.frames_count
        &&& self.frames.wf()
        &&& self.statistics.spec_max_size() == self.settings.frames_count
        &&& self.statistics.wf()
    }

    /// A fresh chain: an empty placeholder frame in the slot, empty
    /// histories, no dispersion, default colour thresholds.
    pub fn new(proc_settings: ProcessingSettings) -> (r: ChainProcessing)
        requires
            proc_settings.frames_count >= 4,
            proc_settings.frames_count < 0x1_0000_0000,
            proc_settings.window_size >= 0,
        ensures
            r.wf(),
            r.wf_caps(),
            r.spec_result() matches Ok(f) && f@.rows == 0 && f@.cols == 0,
            r.spec_frames() == Seq::<CvlMat>::empty(),
            r.spec_stats() == Seq::<Statistic>::empty(),
            r.spec_dispersion() is None,
            r.spec_settings() == proc_settings,
            r.spec_bounds() == ColorBounds::spec_default(),
    {
        ChainProcessing {
            statistics: CvlMatDeque::new(proc_settings.frames_count),
            frames: CvlMatDeque::new(proc_settings.frames_count),
            bounds: ColorBounds::default(),
            result: Ok(CvlMat::default()),
            settings: proc_settings,
            dispersion: None,
        }
    }

    /// Seeds the frame history by pushing the given frames in order,
    /// evicting heads as the window fills.
    pub fn set_frames(&mut self, mat_frames: Vec<CvlMat>)
        requires
            old(self).wf(),
            old(self).wf_caps(),
            forall|i: int| 0 <= i < mat_frames@.len() ==> (#[trigger] mat_frames@[i]@).wf(),
        ensures
            final(self).wf(),
            final(self).wf_caps(),
            final(self).spec_frames() == spec_ring_pushed(
                old(self).spec_frames(),
                old(self).spec_settings().frames_count as nat,
                mat_frames@,
            ),
            final(self).spec_result() == old(self).spec_result(),
            final(self).spec_stats() == old(self).spec_stats(),
            final(self).spec_dispersion() == old(self).spec_dispersion(),
            final(self).spec_settings() == old(self).spec_settings(),
            final(self).spec_bounds() == old(self).spec_bounds(),
    {
        let ghost all = mat_frames@;
        let mut rest = mat_frames;
        while rest.len() > 0
            invariant
                self.wf(),
                self.wf_caps(),
                forall|i: int| 0 <= i < rest@.len() ==> (#[trigger] rest@[i]@).wf(),
                spec_ring_pushed(
                    self.spec_frames(),
                    self.spec_settings().frames_count as nat,
                    rest@,
                ) == spec_ring_pushed(
                    old(self).spec_frames(),
                    old(self).spec_settings().frames_count as nat,
                    all,
                ),
                self.spec_result() == old(self).spec_result(),
                self.spec_stats() == old(self).spec_stats(),
                self.spec_dispersion() == old(self).spec_dispersion(),
                self.spec_settings() == old(self).spec_settings(),
                self.spec_bounds() == old(self).spec_bounds(),
            decreases rest@.len(),
        {
            let ghost before = rest@;
            let frame = rest.remove(0);
            self.frames.push(frame);
            proof {
                assert(before.subrange(1, before.len() as int) =~= rest@);
            }
        }
        proof {
            assert(spec_ring_pushed(
                self.spec_frames(),
                self.spec_settings().frames_count as nat,
                Seq::<CvlMat>::empty(),
            ) == self.spec_frames());
        }
    }

    /// The configuration, for reading.
    pub fn settings(&self) -> (r: &ProcessingSettings)
        ensures
            *r == self.spec_settings(),
    {
        &self.settings
    }

    /// Replaces the configuration. The histories are windows of the
    /// configured length, so both are reset to the new length.
    pub fn set_settings(&mut self, proc_settings: ProcessingSettings)
        requires
            proc_settings.frames_count >= 4,
            proc_settings.frames_count < 0x1_0000_0000,
            proc_settings.window_size >= 0,
        ensures
            final(self).wf_caps(),
            final(self).spec_settings() == proc_settings,
            final(self).spec_frames() == Seq::<CvlMat>::empty(),
            final(self).spec_stats() == Seq::<Statistic>::empty(),
            final(self).spec_result() == old(self).spec_result(),
            final(self).spec_dispersion() == old(self).spec_dispersion(),
            final(self).spec_bounds() == old(self).spec_bounds(),
            old(self).wf() ==> final(self).wf(),
    {
        let count = proc_settings.frames_count;
        self.settings = proc_settings;
        self.frames.set_max_size(count);
        self.statistics.set_max_size(count);
        proof {
            if self.result is Ok {
                assert(self.result == old(self).result);
            }
        }
    }

    /// Starts a new pass: the slot takes the given frame.
    pub fn run_chain(&mut self, mat: CvlMat)
        requires
            old(self).wf(),
            old(self).wf_caps(),
            mat@.wf(),
        ensures
            final(self).wf(),
            final(self).wf_caps(),
            final(self).spec_result() == Ok::<CvlMat, ProcessingError>(mat),
            final(self).spec_frames() == old(self).spec_frames(),
            final(self).spec_stats() == old(self).spec_stats(),
            final(self).spec_dispersion() == old(self).spec_dispersion(),
            final(self).spec_settings() == old(self).spec_settings(),
            final(self).spec_bounds() == old(self).spec_bounds(),
    {
        self.result = Ok(mat);
    }

    /// The grayscale stage: an `Ok` slot is replaced by the grayscale of
    /// its frame, or by the conversion error; an `Err` slot is kept.
    pub fn grayscale(&mut self)
        requires
            old(self).wf(),
            old(self).wf_caps(),
        ensures
            final(self).wf(),
            final(self).wf_caps(),
            old(self).spec_result() is Err ==> final(self).spec_result() == old(self).spec_result(),
            old(self).spec_result() matches Ok(f) ==> (f@.channels == 3 && f@.depth
                == crate::mat::MatDepth::U8 ==> (final(self).spec_result() matches Ok(g)
                && spec_grayscale_post(f@, g@))),
            old(self).spec_result() matches Ok(f) ==> (!(f@.channels == 3 && f@.depth
                == crate::mat::MatDepth::U8) ==> (final(self).spec_result() matches Err(e)
                && e is GenGrayScale)),
            final(self).spec_frames() == old(self).spec_frames(),
            final(self).spec_stats() == old(self).spec_stats(),
            final(self).spec_dispersion() == old(self).spec_dispersion(),
            final(self).spec_settings() == old(self).spec_settings(),
            final(self).spec_bounds() == old(self).spec_bounds(),
    {
        let outcome = match &self.result {
            Ok(res) => gen_grayscale_frame(res),
            Err(err) => Err(err.duplicate()),
        };
        self.result = outcome;
    }

    /// The edge-detection stage. The detector itself runs outside this
    /// crate; this applies its outcome. An `Ok` slot takes the detected
    /// edges, or the detector's message as an edge-detection error; an
    /// `Err` slot is kept and the outcome is dropped.
    pub fn canny(&mut self, edges: Result<CvlMat, String>)
        requires
            old(self).wf(),
            old(self).wf_caps(),
            edges matches Ok(f) ==> f@.wf(),
        ensures
            final(self).wf(),
            final(self).wf_caps(),
            old(self).spec_result() is Err ==> final(self).spec_result() == old(self).spec_result(),
            old(self).spec_result() is Ok ==> match edges {
                Ok(f) => final(self).spec_result() == Ok::<CvlMat, ProcessingError>(f),
                Err(m) => final(self).spec_result() == Err::<CvlMat, ProcessingError>(
                    ProcessingError::GenCanny(m),
                ),
            },
            final(self).spec_frames() == old(self).spec_frames(),
            final(self).spec_stats() == old(self).spec_stats(),
            final(self).spec_dispersion() == old(self).spec_dispersion(),
            final(self).spec_settings() == old(self).spec_settings(),
            final(self).spec_bounds() == old(self).spec_bounds(),
    {
        if self.result.is_ok() {
            self.result = match edges {
                Ok(f) => Ok(f),
                Err(m) => Err(ProcessingError::GenCanny(m)),
            };
        }
    }

    /// The append stage: an `Ok` slot's frame moves into the frame history
    /// (evicting the head when the window is full) and the slot takes the
    /// empty placeholder; an `Err` slot is kept and nothing is pushed.
    pub fn append_frame(&mut self)
        requires
            old(self).wf(),
            old(self).wf_caps(),
        ensures
            final(self).wf(),
            final(self).wf_caps(),
            old(self).spec_result() is Err ==> final(self).spec_result() == old(self).spec_result()
                && final(self).spec_frames() == old(self).spec_frames(),
            old(self).spec_result() matches Ok(f) ==> final(self).spec_frames() == spec_ring_push(
                old(self).spec_frames(),
                old(self).spec_settings().frames_count as nat,
                f,
            ) && (final(self).spec_result() matches Ok(e) && e@.rows == 0 && e@.cols == 0),
            final(self).spec_stats() == old(self).spec_stats(),
            final(self).spec_dispersion() == old(self).spec_dispersion(),
            final(self).spec_settings() == old(self).spec_settings(),
            final(self).spec_bounds() == old(self).spec_bounds(),
    {
        let mut taken: Result<CvlMat, ProcessingError> = Ok(CvlMat::default());
        core::mem::swap(&mut self.result, &mut taken);
        match taken {
            Ok(frame) => {
                self.frames.push(frame);
            },
            Err(err) => {
                self.result = Err(err);
            },
        }
    }

    /// The fold-style reduction stage. While the frame history is shorter
    /// than the window length the slot takes the warm-up error and nothing
    /// else moves. Once warmed and with an `Ok` slot, the history's head
    /// is dropped and the slot takes the left fold of pairwise absolute
    /// differences over the remaining window; with an `Err` slot the
    /// warm-up error is kept and the history stands.
    pub fn reduce_abs(&mut self)
        requires
            old(self).wf(),
            old(self).wf_caps(),
            old(self).spec_frames().len() >= old(self).spec_settings().frames_count && old(
                self,
            ).spec_result() is Ok ==> spec_uniform(
                old(self).spec_frames().subrange(1, old(self).spec_frames().len() as int),
            ),
        ensures
            final(self).wf(),
            final(self).wf_caps(),
            old(self).spec_frames().len() < old(self).spec_settings().frames_count ==> {
                &&& final(self).spec_result() == Err::<CvlMat, ProcessingError>(ProcessingError::GenAbs)
                &&& final(self).spec_frames() == old(self).spec_frames()
            },
            old(self).spec_frames().len() >= old(self).spec_settings().frames_count && old(
                self,
            ).spec_result() is Err ==> final(self).spec_result() == Err::<CvlMat, ProcessingError>(
                ProcessingError::GenAbs,
            ) && final(self).spec_frames() == old(self).spec_frames(),
            old(self).spec_frames().len() >= old(self).spec_settings().frames_count && old(
                self,
            ).spec_result() is Ok ==> final(self).spec_frames() == old(self).spec_frames().subrange(
                1,
                old(self).spec_frames().len() as int,
            ) && (final(self).spec_result() matches Ok(o) && o@.wf() && o@.same_shape(
                final(self).spec_frames()[0]@,
            ) && o@.data == spec_reduce_abs(spec_datas(final(self).spec_frames()))),
            final(self).spec_stats() == old(self).spec_stats(),
            final(self).spec_dispersion() == old(self).spec_dispersion(),
            final(self).spec_settings() == old(self).spec_settings(),
            final(self).spec_bounds() == old(self).spec_bounds(),
    {
        let frames_count = self.frames.length();
        if frames_count < self.settings.frames_count {
            self.result = Err(ProcessingError::GenAbs);
            return ;
        }
        if self.result.is_err() {
            self.result = Err(ProcessingError::GenAbs);
            return ;
        }
        let _ = self.frames.take_first();
        let outcome = gen_abs_frame_reduce(self.frames.items());
        self.result = outcome;
    }

    /// The recursive reduction stage: the warm-up discipline of
    /// `reduce_abs`, with the recursive pairwise reduction in place of the
    /// fold.
    pub fn abs_recursively(&mut self)
        requires
            old(self).wf(),
            old(self).wf_caps(),
            old(self).spec_frames().len() >= old(self).spec_settings().frames_count && old(
                self,
            ).spec_result() is Ok ==> spec_uniform(
                old(self).spec_frames().subrange(1, old(self).spec_frames().len() as int),
            ),
        ensures
            final(self).wf(),
            final(self).wf_caps(),
            old(self).spec_frames().len() < old(self).spec_settings().frames_count ==> {
                &&& final(self).spec_result() == Err::<CvlMat, ProcessingError>(ProcessingError::GenAbs)
                &&& final(self).spec_frames() == old(self).spec_frames()
            },
            old(self).spec_frames().len() >= old(self).spec_settings().frames_count && old(
                self,
            ).spec_result() is Err ==> final(self).spec_result() == Err::<CvlMat, ProcessingError>(
                ProcessingError::GenAbs,
            ) && final(self).spec_frames() == old(self).spec_frames(),
            old(self).spec_frames().len() >= old(self).spec_settings().frames_count && old(
                self,
            ).spec_result() is Ok ==> final(self).spec_frames() == old(self).spec_frames().subrange(
                1,
                old(self).spec_frames().len() as int,
            ) && (final(self).spec_result() matches Ok(o) && o@.wf() && o@.same_shape(
                final(self).spec_frames()[0]@,
            ) && o@.data == spec_rec_abs(spec_datas(final(self).spec_frames()))),
            final(self).spec_stats() == old(self).spec_stats(),
            final(self).spec_dispersion() == old(self).spec_dispersion(),
            final(self).spec_settings() == old(self).spec_settings(),
            final(self).spec_bounds() == old(self).spec_bounds(),
    {
        let frames_count = self.frames.length();
        if frames_count < self.settings.frames_count {
            self.result = Err(ProcessingError::GenAbs);
            return ;
        }
        if self.result.is_err() {
            self.result = Err(ProcessingError::GenAbs);
            return ;
        }
        let _ = self.frames.take_first();
        let outcome = gen_abs_frame(self.frames.items());
        self.result = outcome;
    }

    /// The classification stage: an `Ok` slot's frame is classified, the
    /// resulting statistic joins the statistic history (evicting the head
    /// when the window is full), and the slot takes the classified frame.
    /// An `Err` slot is re-kinded to the warm-up error, so a failed
    /// reduction reads the same at the end of the pass.
    pub fn vibrating(&mut self)
        requires
            old(self).wf(),
            old(self).wf_caps(),
            old(self).spec_result() matches Ok(f) ==> f@.channels == 1 && f@.depth
                == crate::mat::MatDepth::U8 && f@.rows * f@.cols <= 0x7fff_ffff
                && spec_class_total(
                f@,
                old(self).spec_settings().window_size as int,
                old(self).spec_bounds(),
                PixelClass::Green,
            ) <= u16::MAX && spec_class_total(
                f@,
                old(self).spec_settings().window_size as int,
                old(self).spec_bounds(),
                PixelClass::Cyan,
            ) <= u16::MAX && spec_class_total(
                f@,
                old(self).spec_settings().window_size as int,
                old(self).spec_bounds(),
                PixelClass::Yellow,
            ) <= u16::MAX && spec_class_total(
                f@,
                old(self).spec_settings().window_size as int,
                old(self).spec_bounds(),
                PixelClass::Red,
            ) <= u16::MAX,
        ensures
            final(self).wf(),
            final(self).wf_caps(),
            old(self).spec_result() is Err ==> final(self).spec_result() == Err::<
                CvlMat,
                ProcessingError,
            >(ProcessingError::GenAbs) && final(self).spec_stats() == old(self).spec_stats(),
            old(self).spec_result() matches Ok(f) ==> (final(self).spec_result() matches Ok(v)
                && spec_vibration_post(
                f@,
                old(self).spec_settings().window_size as int,
                old(self).spec_bounds(),
                v@,
            ) && (v@.stat matches Some(st) && final(self).spec_stats() == spec_ring_push(
                old(self).spec_stats(),
                old(self).spec_settings().frames_count as nat,
                st,
            ))),
            final(self).spec_frames() == old(self).spec_frames(),
            final(self).spec_dispersion() == old(self).spec_dispersion(),
            final(self).spec_settings() == old(self).spec_settings(),
            final(self).spec_bounds() == old(self).spec_bounds(),
    {
        if self.result.is_err() {
            self.result = Err(ProcessingError::GenAbs);
            return ;
        }
        let outcome = match &self.result {
            Ok(result_frame) => compute_vibration(
                result_frame,
                self.settings.neighbours,
                self.settings.window_size,
                &self.bounds,
            ),
            Err(_) => Err(ProcessingError::GenAbs),
        };
        match outcome {
            Ok(mat) => {
                match mat.statistic() {
                    Some(stat) => {
                        self.statistics.push(stat);
                    },
                    None => {},
                }
                self.result = Ok(mat);
            },
            Err(err) => {
                self.result = Err(err);
            },
        }
    }

    /// The statistic stage: the statistic riding on an `Ok` slot's frame
    /// joins the statistic history once more, and once the history has
    /// reached the window length the dispersion over it is computed and
    /// cached. The slot keeps its frame. An `Ok` frame without a statistic
    /// leaves the slot with the statistic error; an `Err` slot is kept.
    pub fn statistic(&mut self)
        requires
            old(self).wf(),
            old(self).wf_caps(),
        ensures
            final(self).wf(),
            final(self).wf_caps(),
            old(self).spec_result() is Err ==> final(self).spec_result() == old(self).spec_result()
                && final(self).spec_stats() == old(self).spec_stats() && final(self).spec_dispersion() == old(
                self,
            ).spec_dispersion(),
            old(self).spec_result() matches Ok(f) ==> (f@.stat is None ==> final(self).spec_result()
                == Err::<CvlMat, ProcessingError>(ProcessingError::ComputeStatistic)
                && final(self).spec_stats() == old(self).spec_stats() && final(self).spec_dispersion() == old(
                self,
            ).spec_dispersion()),
            old(self).spec_result() matches Ok(f) ==> (f@.stat matches Some(st)
                ==> final(self).spec_result() == old(self).spec_result() && final(self).spec_stats()
                == spec_ring_push(
                old(self).spec_stats(),
                old(self).spec_settings().frames_count as nat,
                st,
            )),
            old(self).spec_result() matches Ok(f) ==> (f@.stat is Some && final(self).spec_stats().len()
                >= old(self).spec_settings().frames_count ==> (final(self).spec_dispersion()
                matches Some(d) && d.ch1 == spec_ssd(final(self).spec_stats(), 0) && d.ch2 == spec_ssd(
                final(self).spec_stats(),
                1,
            ) && d.ch3 == spec_ssd(final(self).spec_stats(), 2) && d.ch4 == spec_ssd(
                final(self).spec_stats(),
                3,
            ))),
            old(self).spec_result() matches Ok(f) ==> (f@.stat is Some && final(self).spec_stats().len()
                < old(self).spec_settings().frames_count ==> final(self).spec_dispersion() == old(
                self,
            ).spec_dispersion()),
            final(self).spec_frames() == old(self).spec_frames(),
            final(self).spec_settings() == old(self).spec_settings(),
            final(self).spec_bounds() == old(self).spec_bounds(),
    {
        let first_stat: Option<Statistic> = match &self.result {
            Ok(res_mat) => res_mat.statistic(),
            Err(_) => None,
        };
        if self.result.is_err() {
            return ;
        }
        match first_stat {
            None => {
                self.result = Err(ProcessingError::ComputeStatistic);
            },
            Some(stat) => {
                self.statistics.push(stat);
                if self.statistics.length() >= self.settings.frames_count {
                    let old_stats = self.collect_stats();
                    let dispersion = compute_statistic(&old_stats);
                    self.dispersion = Some(dispersion);
                }
            },
        }
    }

    /// The statistic history as a vector, oldest first.
    fn collect_stats(&self) -> (r: Vec<Statistic>)
        ensures
            r@ == self.spec_stats(),
    {
        let mut v: Vec<Statistic> = Vec::new();
        let n = self.statistics.length();
        let mut i: usize = 0;
        while i < n
            invariant
                n == self.spec_stats().len(),
                i <= n,
                v@ == self.spec_stats().take(i as int),
            decreases n - i,
        {
            match self.statistics.get(i) {
                Some(stat) => {
                    v.push(*stat);
                },
                None => {
                    proof {
                        assert(false);
                    }
                },
            }
            i = i + 1;
            proof {
                assert(v@ =~= self.spec_stats().take(i as int));
            }
        }
        proof {
            assert(v@ =~= self.spec_stats());
        }
        v
    }

    /// The cached dispersion: nothing until the statistic history first
    /// reaches the window length.
    pub fn get_dispersion(&self) -> (r: Option<&DispersionSsd>)
        ensures
            match r {
                Some(d) => self.spec_dispersion() == Some(*d),
                None => self.spec_dispersion() is None,
            },
    {
        self.dispersion.as_ref()
    }

    /// A copy of the result slot: the current frame, or the error that
    /// stopped the pass.
    pub fn get_result(&self) -> (r: Result<CvlMat, ProcessingError>)
        ensures
            match r {
                Ok(m) => self.spec_result() matches Ok(f) && m@ == f@,
                Err(e) => self.spec_result() == Err::<CvlMat, ProcessingError>(e),
            },
    {
        match &self.result {
            Ok(res) => Ok(res.duplicate()),
            Err(err) => Err(err.duplicate()),
        }
    }
}

impl Default for ChainProcessing {
    /// A chain over the default configuration.
    fn default() -> (r: ChainProcessing)
        ensures
            r.wf(),
            r.wf_caps(),
            r.spec_frames() == Seq::<CvlMat>::empty(),
            r.spec_stats() == Seq::<Statistic>::empty(),
            r.spec_dispersion() is None,
            r.spec_settings().frames_count == 15,
            r.spec_settings().window_size == 2,
            r.spec_bounds() == ColorBounds::spec_default(),
            r.spec_result() is Ok,
    {
        let proc_settings = ProcessingSettings::default();
        ChainProcessing::new(proc_settings)
    }
}

} // verus!
