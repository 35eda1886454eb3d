use libdl::chunks::{
    build_segments, calculate_dynamic_chunk_size, chunk_count, completed_total,
    contiguous_completed_bytes, count_finished, segment_len,
};
use libdl::Segment;

#[test]
fn builds_missing_segments_only() {
    let completed = vec![true, false, true, false];
    let segments = build_segments(10, 3, &completed);

    assert_eq!(
        segments,
        vec![
            Segment {
                index: 1,
                start: 3,
                end: 5
            },
            Segment {
                index: 3,
                start: 9,
                end: 9
            }
        ]
    );
}

#[test]
fn test_calculate_dynamic_chunk_size() {
    // Test very small files (< 10MB)
    assert_eq!(calculate_dynamic_chunk_size(4 * 1024 * 1024, 8), 512 * 1024);
    assert_eq!(calculate_dynamic_chunk_size(4 * 1024 * 1024, 1), 2 * 1024 * 1024);

    // Test small-to-medium files (10MB - 100MB)
    assert_eq!(
        calculate_dynamic_chunk_size(40 * 1024 * 1024, 8),
        (2.5 * 1024.0 * 1024.0) as u64
    );
    assert_eq!(calculate_dynamic_chunk_size(80 * 1024 * 1024, 4), 8 * 1024 * 1024);

    // Test medium files (100MB - 1GB)
    assert_eq!(calculate_dynamic_chunk_size(500 * 1024 * 1024, 8), 16 * 1024 * 1024);

    // Test large files (1GB - 10GB)
    assert_eq!(
        calculate_dynamic_chunk_size(4 * 1024 * 1024 * 1024, 8),
        32 * 1024 * 1024
    );

    // Test very large files (>= 10GB)
    assert_eq!(
        calculate_dynamic_chunk_size(10 * 1024 * 1024 * 1024, 8),
        64 * 1024 * 1024
    );
    assert_eq!(
        calculate_dynamic_chunk_size(20 * 1024 * 1024 * 1024, 8),
        64 * 1024 * 1024
    );
}

#[test]
fn no_connections_count_as_one() {
    assert_eq!(
        calculate_dynamic_chunk_size(4 * 1024 * 1024, 0),
        calculate_dynamic_chunk_size(4 * 1024 * 1024, 1)
    );
    assert_eq!(calculate_dynamic_chunk_size(0, usize::MAX), 512 * 1024);
}

#[test]
fn larger_files_are_cut_no_smaller_and_more_connections_no_larger() {
    let sizes: Vec<u64> = (0..64).map(|n| calculate_dynamic_chunk_size(1 << n, 8)).collect();
    assert!(sizes.windows(2).all(|pair| pair[0] <= pair[1]));
    let sizes: Vec<u64> = (0..64).map(|n| calculate_dynamic_chunk_size(1 << 30, n)).collect();
    assert!(sizes.windows(2).all(|pair| pair[0] >= pair[1]));
}

#[test]
fn chunks_round_up() {
    assert_eq!(chunk_count(0, 0), 0);
    assert_eq!(chunk_count(9, 3), 3);
    assert_eq!(chunk_count(10, 3), 4);
    assert_eq!(chunk_count(1, u64::MAX), 1);
    assert_eq!(chunk_count(u64::MAX, u64::MAX), 1);
}

#[test]
fn last_chunk_is_cut_short() {
    assert_eq!(segment_len(0, 10, 3), 3);
    assert_eq!(segment_len(3, 10, 3), 1);
    assert_eq!(segment_len(4, 10, 3), 0);
    assert_eq!(segment_len(usize::MAX, 10, 3), 0);
}

#[test]
fn finished_and_missing_bytes_add_up() {
    let completed = [true, false, true, false];
    let missing: u64 = build_segments(10, 3, &completed).iter().map(Segment::len).sum();
    assert_eq!(completed_total(&completed, 10, 3), 6);
    assert_eq!(missing, 4);
    assert_eq!(count_finished(&completed), 2);
}

#[test]
fn segments_lie_apart_and_cover_what_is_missing() {
    let completed = [false, true];
    let segments = build_segments(10, 3, &completed);
    assert!(segments.iter().all(|s| s.len() == segment_len(s.index, 10, 3) && s.len() >= 1));
    let covered: Vec<u64> = segments.iter().flat_map(|s| s.start..=s.end).collect();
    assert_eq!(covered, vec![0, 1, 2, 6, 7, 8, 9]);
}

#[test]
fn contiguous_bytes_stop_at_the_first_gap() {
    assert_eq!(contiguous_completed_bytes(&[true, true, false, true], 10, 3), 6);
    assert_eq!(contiguous_completed_bytes(&[true, true, true, true], 10, 3), 10);
    assert_eq!(contiguous_completed_bytes(&[false, true], 10, 3), 0);
    assert_eq!(contiguous_completed_bytes(&[], 10, 3), 0);
}
