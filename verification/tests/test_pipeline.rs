use cvlcore::bounds::ColorBounds;
use cvlcore::chain::{ChainProcessing, ProcessingSettings};
use cvlcore::cvl::{
    gen_abs_frame, gen_abs_frame_reduce, gen_diff_frame, gen_grayscale_frame, gen_threshold_frame,
    mean_intensity, mean_intensity_or_zero,
};
use cvlcore::errors::ProcessingError;
use cvlcore::mat::{CvlMat, MatDepth};
use cvlcore::statistic::{compute_statistic, Statistic};
use cvlcore::ui::{signal_for_key, WindowSignals};
use cvlcore::vibration::compute_vibration;

fn gray_frame(rows: usize, cols: usize, bytes: Vec<u8>) -> CvlMat {
    CvlMat::new(rows, cols, 1, MatDepth::U8, bytes)
}

/// The four channel bytes of the vibration output at one pixel.
fn pixel4(m: &CvlMat, r: usize, c: usize) -> (u8, u8, u8, u8) {
    (m.at(r, c, 0), m.at(r, c, 1), m.at(r, c, 2), m.at(r, c, 3))
}

const BLACK: (u8, u8, u8, u8) = (0, 0, 0, 0);
const GREEN: (u8, u8, u8, u8) = (0, 255, 0, 0);
const CYAN: (u8, u8, u8, u8) = (255, 255, 0, 0);
const YELLOW: (u8, u8, u8, u8) = (0, 255, 255, 0);
const RED: (u8, u8, u8, u8) = (0, 0, 255, 0);

/// During warm-up, both reductions leave the slot holding the warm-up
/// error, however many appends short of the window have happened.
#[test]
fn warmup_reductions_report_abs_error() {
    let window_settings = || {
        let mut settings = ProcessingSettings::default();
        settings.frames_count = 6;
        settings
    };
    for k in 0..6usize {
        let mut chain = ChainProcessing::new(window_settings());
        for _ in 0..k {
            chain.run_chain(gray_frame(4, 4, vec![9; 16]));
            chain.append_frame();
        }
        chain.reduce_abs();
        assert!(matches!(chain.get_result(), Err(ProcessingError::GenAbs)));

        let mut chain2 = ChainProcessing::new(window_settings());
        for _ in 0..k {
            chain2.run_chain(gray_frame(4, 4, vec![9; 16]));
            chain2.append_frame();
        }
        chain2.abs_recursively();
        assert!(matches!(chain2.get_result(), Err(ProcessingError::GenAbs)));
    }
}

/// The fold reduction of an even number of identical frames is a zero
/// frame of the same size. (An odd history of identical frames folds back
/// to the frame itself, so the even case is the zero one.)
#[test]
fn identical_frames_reduce_to_zero() {
    for n in [2usize, 4, 6] {
        let frames: Vec<CvlMat> =
            (0..n).map(|_| gray_frame(3, 3, vec![7, 0, 3, 0, 9, 0, 1, 0, 5])).collect();
        let out = gen_abs_frame_reduce(&frames).unwrap();
        assert_eq!(out.rows(), 3);
        assert_eq!(out.columns(), 3);
        assert!(out.to_slice().iter().all(|&b| b == 0));
    }
    let frames: Vec<CvlMat> =
        (0..3).map(|_| gray_frame(1, 2, vec![8, 2])).collect();
    let out = gen_abs_frame_reduce(&frames).unwrap();
    assert_eq!(out.to_slice(), &[8, 2]);
}

/// A single-frame history reduces to that frame unchanged, under both
/// reductions.
#[test]
fn single_frame_reduces_to_itself() {
    let bytes = vec![1, 2, 3, 4, 5, 6];
    let frames = vec![gray_frame(2, 3, bytes.clone())];
    let folded = gen_abs_frame_reduce(&frames).unwrap();
    assert_eq!(folded.to_slice(), bytes.as_slice());
    assert_eq!(folded.rows(), 2);
    assert_eq!(folded.columns(), 3);
    let recursed = gen_abs_frame(&frames).unwrap();
    assert_eq!(recursed.to_slice(), bytes.as_slice());
    assert_eq!(recursed.rows(), 2);
    assert_eq!(recursed.columns(), 3);
}

/// The pairwise absolute difference is symmetric in its arguments.
#[test]
fn abs_diff_is_symmetric() {
    let a = gray_frame(2, 2, vec![10, 200, 0, 77]);
    let b = gray_frame(2, 2, vec![90, 3, 255, 77]);
    let ab = gen_diff_frame(&a, &b).unwrap();
    let ba = gen_diff_frame(&b, &a).unwrap();
    assert_eq!(ab.to_slice(), ba.to_slice());
    assert_eq!(ab.to_slice(), &[80, 197, 255, 0]);
}

/// Differently shaped frames cannot be differenced.
#[test]
fn abs_diff_rejects_shape_mismatch() {
    let a = gray_frame(2, 2, vec![1, 2, 3, 4]);
    let b = gray_frame(1, 4, vec![1, 2, 3, 4]);
    assert!(matches!(
        gen_diff_frame(&a, &b),
        Err(ProcessingError::GenDifferences(_))
    ));
}

/// An empty frame list cannot be folded.
#[test]
fn empty_history_cannot_be_reduced() {
    let frames: Vec<CvlMat> = Vec::new();
    assert!(matches!(
        gen_abs_frame_reduce(&frames),
        Err(ProcessingError::GenAbs)
    ));
}

/// The vibration output always has four channels, two dimensions, the
/// input's size, and the 64-bit-float element tag.
#[test]
fn vibration_output_shape() {
    let mut bytes = vec![0u8; 7 * 9];
    bytes[3 * 9 + 4] = 1;
    let frame = gray_frame(7, 9, bytes);
    let out = compute_vibration(&frame, 8, 2, &ColorBounds::default()).unwrap();
    assert_eq!(out.channels(), 4);
    assert_eq!(out.dims(), 2);
    assert_eq!(out.rows(), 7);
    assert_eq!(out.columns(), 9);
    // CV_64FC4: 64-bit-float depth 6 plus 8 per channel beyond the first.
    assert_eq!(out.typ(), 30);
}

/// Every output pixel of the classifier wears one of the five ladder
/// colours.
#[test]
fn vibration_pixels_are_ladder_colors() {
    let rows = 12usize;
    let cols = 12usize;
    let mut bytes = vec![0u8; rows * cols];
    for r in 0..rows {
        for c in 0..cols {
            if (r * 5 + c * 3) % 4 != 0 {
                bytes[r * cols + c] = 200;
            }
        }
    }
    let frame = gray_frame(rows, cols, bytes);
    let out = compute_vibration(&frame, 8, 2, &ColorBounds::default()).unwrap();
    let mut colored = 0usize;
    for r in 0..rows {
        for c in 0..cols {
            let px = pixel4(&out, r, c);
            assert!(px == BLACK || px == GREEN || px == CYAN || px == YELLOW || px == RED);
            if px != BLACK {
                colored += 1;
            }
        }
    }
    assert!(colored > 0);
}

/// The statistic's four counts together never exceed the number of
/// non-zero pixels outside row 0 and column 0 whose neighbourhood square
/// stays inside the frame.
#[test]
fn statistic_bounded_by_eligible_pixels() {
    let rows = 10usize;
    let cols = 10usize;
    let w = 2usize;
    let mut bytes = vec![0u8; rows * cols];
    for r in 0..rows {
        for c in 0..cols {
            if (r + c) % 3 != 0 {
                bytes[r * cols + c] = 255;
            }
        }
    }
    let frame = gray_frame(rows, cols, bytes.clone());
    let out = compute_vibration(&frame, 8, w as i32, &ColorBounds::default()).unwrap();
    let stat = out.statistic().unwrap();

    let mut eligible = 0usize;
    for r in 0..rows {
        for c in 0..cols {
            let inside = r >= w && c >= w && r + w < rows && c + w < cols;
            if bytes[r * cols + c] != 0 && r != 0 && c != 0 && inside {
                eligible += 1;
            }
        }
    }
    let total = stat.ch1 as usize + stat.ch2 as usize + stat.ch3 as usize + stat.ch4 as usize;
    assert!(total <= eligible);
    assert!(total > 0);
}

/// The classifier skips every pixel of row 0 and column 0.
#[test]
fn vibration_skips_first_row_and_column() {
    let rows = 8usize;
    let cols = 8usize;
    let bytes = vec![255u8; rows * cols];
    let frame = gray_frame(rows, cols, bytes);
    let out = compute_vibration(&frame, 8, 1, &ColorBounds::new(1, 200, 300, 400)).unwrap();
    for c in 0..cols {
        assert_eq!(pixel4(&out, 0, c), BLACK);
    }
    for r in 0..rows {
        assert_eq!(pixel4(&out, r, 0), BLACK);
    }
    // An interior pixel of the same all-bright frame is coloured.
    assert_ne!(pixel4(&out, 3, 3), BLACK);
}

/// The classifier skips every non-zero pixel whose centred neighbourhood
/// square would leave the frame.
#[test]
fn vibration_skips_pixels_without_full_window() {
    let rows = 9usize;
    let cols = 9usize;
    let w = 2usize;
    let bytes = vec![255u8; rows * cols];
    let frame = gray_frame(rows, cols, bytes);
    let out = compute_vibration(&frame, 8, w as i32, &ColorBounds::new(1, 200, 300, 400)).unwrap();
    for r in 0..rows {
        for c in 0..cols {
            let full_window = r >= w && c >= w && r + w < rows && c + w < cols;
            if !full_window || r == 0 || c == 0 {
                assert_eq!(pixel4(&out, r, c), BLACK);
            } else {
                assert_ne!(pixel4(&out, r, c), BLACK);
            }
        }
    }
}

/// The ladder takes the highest threshold the count reaches: a bright
/// cluster large enough for the top rung turns red, and the counts land in
/// the matching statistic channels.
#[test]
fn vibration_ladder_ordering() {
    let rows = 7usize;
    let cols = 7usize;
    let mut bytes = vec![0u8; rows * cols];
    for r in 2..5 {
        for c in 2..5 {
            bytes[r * cols + c] = 255;
        }
    }
    let frame = gray_frame(rows, cols, bytes);
    // 3x3 bright cluster, window 1: its centre sees 9 neighbours.
    let out = compute_vibration(&frame, 8, 1, &ColorBounds::new(2, 4, 6, 9)).unwrap();
    assert_eq!(pixel4(&out, 3, 3), RED);
    // The cluster's edge pixels see fewer neighbours and take lower rungs.
    let stat = out.statistic().unwrap();
    assert_eq!(stat.ch4, 1);
    assert_eq!(stat.ch3, 4);
    assert_eq!(stat.ch2, 4);
    assert_eq!(stat.ch1, 0);
}

/// The mean of an empty frame is undefined and falls back to zero for the
/// sigma band.
#[test]
fn empty_frame_mean_falls_back_to_zero() {
    let frame = gray_frame(0, 0, Vec::new());
    assert!(mean_intensity(&frame).is_none());
    assert_eq!(mean_intensity_or_zero(&frame), (0, 1));
}

/// The dispersion of the fixed five-entry history, under normalization 10.
#[test]
fn dispersion_of_fixed_history() {
    let stats = vec![
        Statistic::new(354, 256, 129, 80),
        Statistic::new(879, 567, 280, 143),
        Statistic::new(657, 452, 456, 111),
        Statistic::new(200, 190, 160, 78),
        Statistic::new(123, 100, 98, 65),
    ];
    let ssd = compute_statistic(&stats);
    assert_eq!(ssd.ch1, 689911);
    assert_eq!(ssd.ch2, 266164);
    assert_eq!(ssd.ch3, 274912);
    assert_eq!(ssd.ch4, 22946);
    let normalization = 10.0f32;
    assert_eq!((ssd.ch1 as f32).sqrt() / normalization, 83.06088);
    assert_eq!((ssd.ch2 as f32).sqrt() / normalization, 51.591084);
    assert_eq!((ssd.ch3 as f32).sqrt() / normalization, 52.43205);
    assert_eq!((ssd.ch4 as f32).sqrt() / normalization, 15.147937);
}

/// Dispersion is non-negative in every channel: the sums of squares by
/// construction, and their scaled square roots with them.
#[test]
fn dispersion_is_nonnegative() {
    let stats = vec![
        Statistic::new(5, 0, 1000, 3),
        Statistic::new(0, 65535, 2, 3),
        Statistic::new(17, 1, 2, 3),
        Statistic::new(90, 1, 2, 3),
    ];
    let ssd = compute_statistic(&stats);
    for v in [ssd.ch1, ssd.ch2, ssd.ch3, ssd.ch4] {
        assert!((v as f32).sqrt() / 10.0f32 >= 0.0);
    }
}

/// A constant history of a statistic whose channels agree has zero
/// dispersion.
#[test]
fn dispersion_of_constant_history_is_zero() {
    let stats = vec![Statistic::new(7, 7, 7, 7); 5];
    let ssd = compute_statistic(&stats);
    assert_eq!((ssd.ch1, ssd.ch2, ssd.ch3, ssd.ch4), (0, 0, 0, 0));
}

/// A grayscale conversion keeps the size, and a known pixel gets its
/// fixed-point luminance.
#[test]
fn grayscale_luminance_values() {
    // One pixel: blue 255, green 0, red 0.
    let frame = CvlMat::new(1, 1, 3, MatDepth::U8, vec![255, 0, 0]);
    let gray = gen_grayscale_frame(&frame).unwrap();
    assert_eq!(gray.to_slice(), &[29]);
    // Equal channels give that value back.
    let frame = CvlMat::new(1, 1, 3, MatDepth::U8, vec![100, 100, 100]);
    let gray = gen_grayscale_frame(&frame).unwrap();
    assert_eq!(gray.to_slice(), &[100]);
    // A single-channel frame is rejected.
    let bad = gray_frame(1, 1, vec![0]);
    assert!(matches!(
        gen_grayscale_frame(&bad),
        Err(ProcessingError::GenGrayScale(_))
    ));
}

/// A full chain run over more frames than the window: warm-up errors
/// first, then classified four-channel frames; the dispersion appears once
/// the statistic history has filled and stays.
#[test]
fn chain_run_over_window() {
    let frames_count = 15usize;
    let mut chain = ChainProcessing::default();
    let mut first_some: Option<usize> = None;
    for n in 1..=30usize {
        let frame = bgr_frame(n as u32);
        chain.run_chain(frame);
        chain.grayscale();
        let edges: Result<CvlMat, String> = match chain.get_result() {
            Ok(gray) => gen_threshold_frame(&gray, 100, 255)
                .map_err(|_| "edge detection failed".to_string()),
            Err(_) => Err("no frame to detect edges on".to_string()),
        };
        chain.canny(edges);
        chain.append_frame();
        chain.reduce_abs();
        chain.vibrating();
        chain.statistic();

        if n < frames_count {
            assert!(matches!(chain.get_result(), Err(ProcessingError::GenAbs)));
            assert!(chain.get_dispersion().is_none());
        } else {
            let result = chain.get_result().unwrap();
            assert_eq!(result.channels(), 4);
            assert_eq!(result.dims(), 2);
        }
        if first_some.is_none() && chain.get_dispersion().is_some() {
            first_some = Some(n);
        }
    }
    // Both the classifier and the statistic stage push one entry per
    // successful pass, so the history of 15 fills on the eighth warmed
    // frame: frame 22 of the run.
    assert_eq!(first_some, Some(22));
    assert!(chain.get_dispersion().is_some());
}

fn bgr_frame(k: u32) -> CvlMat {
    let rows = 12usize;
    let cols = 12usize;
    let mut data = Vec::with_capacity(rows * cols * 3);
    for r in 0..rows {
        for c in 0..cols {
            let base = (r as u32 * 31 + c as u32 * 17 + k * 53) % 256;
            data.push(base as u8);
            data.push((base % 128) as u8);
            data.push((255 - base) as u8);
        }
    }
    CvlMat::new(rows, cols, 3, MatDepth::U8, data)
}

/// A webcam address parses exactly when it is one to nine decimal digits.
#[test]
fn device_index_parsing() {
    assert_eq!(cvlcore::capture::parse_device_index("0"), Some(0));
    assert_eq!(cvlcore::capture::parse_device_index("42"), Some(42));
    assert_eq!(cvlcore::capture::parse_device_index("999999999"), Some(999999999));
    assert_eq!(cvlcore::capture::parse_device_index(""), None);
    assert_eq!(cvlcore::capture::parse_device_index("-1"), None);
    assert_eq!(cvlcore::capture::parse_device_index("1234567890"), None);
    assert_eq!(cvlcore::capture::parse_device_index("12a"), None);
    assert_eq!(cvlcore::capture::parse_device_index("rtsp://cam"), None);
}

/// Key code 113 closes the application; every other code keeps going.
#[test]
fn window_signal_for_key() {
    assert!(matches!(signal_for_key(113), WindowSignals::CLoseApplication));
    assert!(matches!(signal_for_key(13), WindowSignals::KeepProcessing));
    assert!(matches!(signal_for_key(-1), WindowSignals::KeepProcessing));
}

/// The colour thresholds answer by 1-based index, with a zero fallback.
#[test]
fn color_bounds_lookup() {
    let bounds = ColorBounds::new(3, 5, 8, 13);
    assert_eq!(bounds.get(1), 3);
    assert_eq!(bounds.get(2), 5);
    assert_eq!(bounds.get(3), 8);
    assert_eq!(bounds.get(4), 13);
    assert_eq!(bounds.get(0), 0);
    assert_eq!(bounds.get(5), 0);
    let defaults = ColorBounds::default();
    assert_eq!(
        (defaults.get(1), defaults.get(2), defaults.get(3), defaults.get(4)),
        (8, 9, 10, 11)
    );
}
