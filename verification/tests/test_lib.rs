use cvlcore::bounds::ColorBounds;
use cvlcore::chain::{ChainProcessing, ProcessingSettings};
use cvlcore::cvl::{
    gen_abs_frame, gen_abs_frame_reduce, gen_distribution_frame, gen_grayscale_frame,
    gen_threshold_frame, mean_intensity,
};
use cvlcore::mat::{CvlMat, MatDepth};
use cvlcore::vibration::compute_vibration;

/// A batch of synthetic three-channel frames standing in for video frames:
/// every frame differs from the next, with enough structure for edges.
fn load_resource_frames() -> Vec<CvlMat> {
    let mut frames = Vec::new();
    for k in 0..15u32 {
        let rows = 16usize;
        let cols = 16usize;
        let mut data = Vec::with_capacity(rows * cols * 3);
        for r in 0..rows {
            for c in 0..cols {
                let base = (r as u32 * 13 + c as u32 * 7 + k * 29) % 256;
                data.push(base as u8);
                data.push((base / 2) as u8);
                data.push((255 - base) as u8);
            }
        }
        frames.push(CvlMat::new(rows, cols, 3, MatDepth::U8, data));
    }
    frames
}

/// The edge-detection stand-in used where the pipeline expects an edge
/// frame: a binary threshold of the grayscale frame.
fn edges_of(gray: &CvlMat) -> CvlMat {
    gen_threshold_frame(gray, 100, 255).unwrap()
}

fn edge_frames() -> Vec<CvlMat> {
    load_resource_frames()
        .iter()
        .map(|m| gen_grayscale_frame(m).unwrap())
        .map(|m| edges_of(&m))
        .collect()
}

#[test]
pub fn test_grayscale() {
    let frames = load_resource_frames();
    let cvlmat = frames.first().unwrap();
    let gray = gen_grayscale_frame(cvlmat).unwrap();
    assert_eq!(gray.channels(), 1);
    assert_eq!(gray.dims(), 2);
}

#[test]
fn test_threshold() {
    let frames = load_resource_frames();
    let cvlmat = frames.first().unwrap();
    let gray = gen_grayscale_frame(cvlmat).unwrap();
    let thresh = gen_threshold_frame(&gray, 100, 255).unwrap();
    assert_eq!(thresh.channels(), 1);
    assert_eq!(thresh.dims(), 2);
    for &b in thresh.to_slice() {
        assert!(b == 0 || b == 255);
    }
}

#[test]
fn test_distribution() {
    let frames = load_resource_frames();
    let cvlmat = frames.first().unwrap();
    let gray = gen_grayscale_frame(cvlmat).unwrap();
    let distrib = gen_distribution_frame(&gray, 100, 255).unwrap();
    assert_eq!(distrib.channels(), 3);
    assert_eq!(distrib.dims(), 2);
    assert!(distrib.to_slice().iter().all(|&b| b == 0));
}

#[test]
fn test_compute_median() {
    let mut data = Vec::new();
    for i in 0..64u32 {
        data.push((i % 7) as u8);
    }
    let frame = CvlMat::new(8, 8, 1, MatDepth::U8, data);
    let (sum, count) = mean_intensity(&frame).unwrap();
    // 9 whole cycles of 0+1+...+6 and a tail 0.
    assert_eq!(sum, 9 * 21);
    assert_eq!(count, 64);
    let median = sum as f64 / count as f64;
    assert_eq!(median, 2.953125);
}

#[test]
fn test_diff_frame() {
    let frames = edge_frames();
    let abs_frame = gen_abs_frame(&frames).unwrap();
    assert_eq!(abs_frame.channels(), 1);
    assert_eq!(abs_frame.dims(), 2);
}

#[test]
fn test_diff_frame_reduce() {
    let frames = edge_frames();
    let abs_frame = gen_abs_frame_reduce(&frames).unwrap();
    assert_eq!(abs_frame.channels(), 1);
    assert_eq!(abs_frame.dims(), 2);
}

#[test]
fn test_diff_frame_accuracy() {
    let frames: Vec<CvlMat> = vec![
        CvlMat::new(1, 4, 1, MatDepth::U8, vec![10, 0, 0, 0]),
        CvlMat::new(1, 4, 1, MatDepth::U8, vec![0, 20, 0, 0]),
        CvlMat::new(1, 4, 1, MatDepth::U8, vec![0, 0, 30, 0]),
        CvlMat::new(1, 4, 1, MatDepth::U8, vec![0, 0, 0, 40]),
        CvlMat::new(1, 4, 1, MatDepth::U8, vec![5, 5, 5, 5]),
    ];

    let abs_frame = gen_abs_frame(&frames).unwrap();
    let abs_frame_reduce = gen_abs_frame_reduce(&frames).unwrap();

    let (abs_sum, abs_count) = mean_intensity(&abs_frame).unwrap();
    let (red_sum, red_count) = mean_intensity(&abs_frame_reduce).unwrap();
    let abs_mean = abs_sum as f64 / abs_count as f64;
    let abs_mean_reduce = red_sum as f64 / red_count as f64;

    assert_ne!(abs_mean, abs_mean_reduce);
}

#[test]
fn test_compute_vibrating() {
    let frames = edge_frames();
    let abs_frame = gen_abs_frame_reduce(&frames).unwrap();
    let color_bounds = ColorBounds::default();
    let result = compute_vibration(&abs_frame, 8, 2, &color_bounds).unwrap();
    assert_eq!(result.channels(), 4);
    assert_eq!(result.dims(), 2);
}

#[test]
fn test_chain_processing() {
    let frames = load_resource_frames();
    let cvlmat = frames.first().unwrap();

    let abs_frames = edge_frames();

    let mut own_chain = ChainProcessing::default();
    own_chain.set_frames(abs_frames);
    run_stages(&mut own_chain, cvlmat);

    let chain_result = own_chain.get_result();
    let result = chain_result.unwrap();
    assert_eq!(result.channels(), 4);
    assert_eq!(result.dims(), 2);
}

#[test]
fn test_chain_statistic() {
    let mut settings = ProcessingSettings::default();
    settings.frames_count = 5;
    let mut own_chain = ChainProcessing::new(settings);

    let mut seen = None;
    for cvlmat in load_resource_frames() {
        run_stages(&mut own_chain, &cvlmat);
        own_chain.statistic();
        if let Some(d) = own_chain.get_dispersion() {
            seen = Some(*d);
        }
    }

    let dispersion = seen.expect("the statistic history filled, so dispersion must be cached");
    let _ = dispersion.ch1;
}

/// One pass of the production stage order, with the threshold stand-in for
/// the external edge detector.
fn run_stages(chain: &mut ChainProcessing, frame: &CvlMat) {
    chain.run_chain(frame.duplicate());
    chain.grayscale();
    let edges: Result<CvlMat, String> = match chain.get_result() {
        Ok(gray) => Ok(edges_of(&gray)),
        Err(_) => Err("no frame to detect edges on".to_string()),
    };
    chain.canny(edges);
    chain.append_frame();
    chain.reduce_abs();
    chain.vibrating();
}
