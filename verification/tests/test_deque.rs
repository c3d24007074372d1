use cvlcore::deque::CvlMatDeque;
use cvlcore::mat::{CvlMat, MatDepth};

#[test]
fn test_cvlmat_deque_i32() {
    let mut cvl_deque: CvlMatDeque<i32> = CvlMatDeque::default();
    for int_value in 1..10 {
        let _ = &cvl_deque.push(int_value);
    }

    assert_eq!(5, *cvl_deque.get(0).unwrap());
    assert_eq!(6, *cvl_deque.get(1).unwrap());
    assert_eq!(7, *cvl_deque.get(2).unwrap());
    assert_eq!(8, *cvl_deque.get(3).unwrap());
    assert_eq!(9, *cvl_deque.get(4).unwrap());
    assert_eq!(cvl_deque.max_size(), 5);
    assert_eq!(cvl_deque.length(), 5);
}

#[test]
fn test_cvlmat_deque_mat() {
    let cvl_deque = CvlMatDeque::from_vec(load_resource_frames());
    assert_eq!(cvl_deque.length(), 15);
}

#[test]
fn test_deque_take_first_and_last() {
    let mut dq: CvlMatDeque<i32> = CvlMatDeque::new(3);
    dq.push(1);
    dq.push(2);
    dq.push(3);
    assert_eq!(dq.take_first(), Some(1));
    assert_eq!(dq.take_last(), Some(3));
    assert_eq!(dq.length(), 1);
    assert_eq!(dq.take_first(), Some(2));
    assert_eq!(dq.take_first(), None);
    assert_eq!(dq.take_last(), None);
}

#[test]
fn test_deque_set_max_size_resets() {
    let mut dq: CvlMatDeque<i32> = CvlMatDeque::new(2);
    dq.push(1);
    dq.push(2);
    dq.set_max_size(4);
    assert_eq!(dq.length(), 0);
    assert_eq!(dq.max_size(), 4);
}

/// The window keeps exactly the last `capacity` pushed values, in order,
/// whenever more than `capacity` values have entered.
#[test]
fn test_deque_window_keeps_tail() {
    let mut dq: CvlMatDeque<u64> = CvlMatDeque::new(4);
    for v in 0..100u64 {
        dq.push(v);
    }
    assert_eq!(dq.length(), 4);
    for i in 0..4usize {
        assert_eq!(*dq.get(i).unwrap(), 96 + i as u64);
    }
    assert!(dq.get(4).is_none());
}

fn load_resource_frames() -> Vec<CvlMat> {
    let mut frames = Vec::new();
    for k in 0..15u8 {
        let data = vec![k; 4 * 4 * 3];
        frames.push(CvlMat::new(4, 4, 3, MatDepth::U8, data));
    }
    frames
}
