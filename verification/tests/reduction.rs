use lecture_export::{
    is_similar, mark_kept, reduce, FailureCause, Fingerprint, FingerprintError,
    FingerprintedFrame,
};

/// A fingerprint whose first `ones` bits are set.
fn with_ones(ones: u32) -> Fingerprint {
    let mut bytes = [0u8; 8];
    for bit in 0..ones {
        bytes[(bit / 8) as usize] |= 1 << (bit % 8);
    }
    Fingerprint::from_bytes(bytes)
}

fn frame(path: &str, ones: u32) -> FingerprintedFrame {
    FingerprintedFrame { path: path.to_string(), fingerprint: Ok(with_ones(ones)) }
}

fn failed(path: &str) -> FingerprintedFrame {
    FingerprintedFrame {
        path: path.to_string(),
        fingerprint: Err(FingerprintError {
            path: path.to_string(),
            cause: FailureCause::Undecodable("corrupt".to_string()),
        }),
    }
}

fn names(paths: &[&str]) -> Vec<String> {
    paths.iter().map(|p| p.to_string()).collect()
}

#[test]
fn distance_counts_differing_bits() {
    let a = Fingerprint::from_bytes([0b1010_1010, 0, 0, 0, 0, 0, 0, 0x0f]);
    let b = Fingerprint::from_bytes([0b0101_0101, 0, 0, 0, 0, 0, 0, 0x0e]);
    // 8 bits differ in the first byte, 1 in the last.
    assert!(is_similar(&a, &b, 9));
    assert!(is_similar(&a, &b, 10));
    assert!(!is_similar(&a, &b, 8));
    assert!(!is_similar(&a, &b, 0));
}

#[test]
fn threshold_is_inclusive() {
    let a = with_ones(0);
    let b = with_ones(5);
    assert!(!is_similar(&a, &b, 4));
    assert!(is_similar(&a, &b, 5));
    assert!(is_similar(&a, &b, 6));
}

#[test]
fn threshold_zero_accepts_only_equal_fingerprints() {
    let a = with_ones(17);
    let same = with_ones(17);
    let other = with_ones(18);
    assert!(is_similar(&a, &same, 0));
    assert!(!is_similar(&a, &other, 0));
}

#[test]
fn threshold_of_all_bits_accepts_every_pair() {
    let none = with_ones(0);
    let all = with_ones(64);
    assert!(!is_similar(&none, &all, 63));
    assert!(is_similar(&none, &all, 64));
    assert!(is_similar(&none, &all, u32::MAX));
}

#[test]
fn similarity_is_symmetric() {
    let a = Fingerprint::from_bytes([1, 2, 3, 4, 5, 6, 7, 8]);
    let b = Fingerprint::from_bytes([8, 7, 6, 5, 4, 3, 2, 1]);
    for threshold in 0..=64 {
        assert_eq!(is_similar(&a, &b, threshold), is_similar(&b, &a, threshold));
    }
}

#[test]
fn fingerprint_gives_its_bytes_back() {
    let bytes = [9, 8, 7, 6, 5, 4, 3, 2];
    assert_eq!(Fingerprint::from_bytes(bytes).to_bytes(), bytes);
}

#[test]
fn earlier_of_a_similar_pair_is_removed() {
    // dist(A, B) = 2, dist(B, C) = 10
    let frames = vec![frame("A", 0), frame("B", 2), frame("C", 12)];
    let (kept, removed) = reduce(&frames, 5);
    assert_eq!(kept, names(&["B", "C"]));
    assert_eq!(removed, names(&["A"]));
}

#[test]
fn run_of_duplicates_keeps_only_the_last() {
    // all four within distance 3 of each other
    let frames = vec![frame("A", 0), frame("B", 1), frame("C", 2), frame("D", 3)];
    let (kept, removed) = reduce(&frames, 5);
    assert_eq!(kept, names(&["D"]));
    assert_eq!(removed, names(&["A", "B", "C"]));
}

#[test]
fn nothing_in_nothing_out() {
    let frames: Vec<FingerprintedFrame> = Vec::new();
    let (kept, removed) = reduce(&frames, 5);
    assert!(kept.is_empty());
    assert!(removed.is_empty());
    assert!(mark_kept(&frames, 5).is_empty());
}

#[test]
fn single_frame_is_kept() {
    let frames = vec![frame("A", 0)];
    let (kept, removed) = reduce(&frames, 5);
    assert_eq!(kept, names(&["A"]));
    assert!(removed.is_empty());
}

#[test]
fn failed_second_frame_keeps_both() {
    let frames = vec![frame("A", 0), failed("B")];
    let (kept, removed) = reduce(&frames, 5);
    assert_eq!(kept, names(&["A", "B"]));
    assert!(removed.is_empty());
}

#[test]
fn failed_middle_frame_keeps_all_three() {
    // A and C would be similar, but they are not neighbours
    let frames = vec![frame("A", 0), failed("B"), frame("C", 0)];
    let (kept, removed) = reduce(&frames, 5);
    assert_eq!(kept, names(&["A", "B", "C"]));
    assert!(removed.is_empty());
}

#[test]
fn failed_frame_does_not_shield_later_pairs() {
    let frames = vec![failed("A"), frame("B", 0), frame("C", 1), failed("D"), frame("E", 1)];
    let (kept, removed) = reduce(&frames, 5);
    assert_eq!(kept, names(&["A", "C", "D", "E"]));
    assert_eq!(removed, names(&["B"]));
}

#[test]
fn flags_mark_the_earlier_frame_of_each_pair() {
    let frames = vec![frame("A", 0), frame("B", 2), frame("C", 12), frame("D", 12), failed("E")];
    assert_eq!(mark_kept(&frames, 5), vec![false, true, false, true, true]);
    assert_eq!(mark_kept(&frames, 0), vec![true, true, false, true, true]);
    assert_eq!(mark_kept(&frames, 10), vec![false, false, false, true, true]);
}

#[test]
fn separated_duplicates_are_both_kept() {
    let frames = vec![frame("A", 0), frame("B", 30), frame("A again", 0)];
    let (kept, removed) = reduce(&frames, 5);
    assert_eq!(kept, names(&["A", "B", "A again"]));
    assert!(removed.is_empty());
}

#[test]
fn split_is_complete_and_ordered() {
    let ones = [0u32, 1, 9, 10, 40, 41, 42, 3, 64, 60];
    let frames: Vec<FingerprintedFrame> =
        ones.iter().enumerate().map(|(i, n)| frame(&format!("{:02}", i), *n)).collect();
    let flags = mark_kept(&frames, 4);
    let (kept, removed) = reduce(&frames, 4);
    assert_eq!(kept.len() + removed.len(), frames.len());
    // both sides increase strictly in capture order
    assert!(kept.windows(2).all(|w| w[0] < w[1]));
    assert!(removed.windows(2).all(|w| w[0] < w[1]));
    // merging by the flags gives the input back
    let mut next_kept = kept.iter();
    let mut next_removed = removed.iter();
    let merged: Vec<String> = flags
        .iter()
        .map(|keep| if *keep { next_kept.next() } else { next_removed.next() }.unwrap().clone())
        .collect();
    let paths: Vec<String> = frames.iter().map(|f| f.path.clone()).collect();
    assert_eq!(merged, paths);
    assert_eq!(kept, names(&["01", "03", "06", "07", "09"]));
    assert_eq!(removed, names(&["00", "02", "04", "05", "08"]));
}

#[test]
fn raising_the_threshold_never_removes_fewer() {
    let ones = [0u32, 3, 4, 20, 27, 27, 64, 50, 49, 0];
    let frames: Vec<FingerprintedFrame> =
        ones.iter().enumerate().map(|(i, n)| frame(&format!("{}", i), *n)).collect();
    let mut before = 0;
    for threshold in 0..=65 {
        let (kept, removed) = reduce(&frames, threshold);
        assert!(removed.len() >= before);
        assert_eq!(kept.len() + removed.len(), frames.len());
        before = removed.len();
    }
    assert_eq!(reduce(&frames, 0).1, names(&["4"]));
    assert_eq!(reduce(&frames, 64).0, names(&["9"]));
}

#[test]
fn reducing_distinct_frames_again_changes_nothing() {
    let frames = vec![frame("A", 0), frame("B", 1), frame("C", 20), frame("D", 40), frame("E", 41)];
    let (kept, _) = reduce(&frames, 5);
    assert_eq!(kept, names(&["B", "C", "E"]));
    let again = vec![frame("B", 1), frame("C", 20), frame("E", 41)];
    let (kept_again, removed_again) = reduce(&again, 5);
    assert_eq!(kept_again, kept);
    assert!(removed_again.is_empty());
}

#[test]
fn reducing_again_can_remove_new_neighbours() {
    // A and C are similar, but B, which stands between them, is similar only to C
    let a = Fingerprint::from_bytes([0x0f, 0, 0, 0, 0, 0, 0, 0]);
    let b = Fingerprint::from_bytes([0xf0, 0, 0, 0, 0, 0, 0, 0x0f]);
    let c = Fingerprint::from_bytes([0x00, 0, 0, 0, 0, 0, 0, 0x0f]);
    let make = |path: &str, fingerprint: Fingerprint| FingerprintedFrame {
        path: path.to_string(),
        fingerprint: Ok(fingerprint),
    };
    // dist(A, B) = 12, dist(B, C) = 4, dist(A, C) = 8
    let (kept, removed) = reduce(&vec![make("A", a), make("B", b), make("C", c)], 8);
    assert_eq!(kept, names(&["A", "C"]));
    assert_eq!(removed, names(&["B"]));
    let (kept_again, removed_again) = reduce(&vec![make("A", a), make("C", c)], 8);
    assert_eq!(kept_again, names(&["C"]));
    assert_eq!(removed_again, names(&["A"]));
}
