use chunked_download::plan::{plan_chunks, ChunkStatus, PlanError, CHUNK_SIZE};

const MIB: u64 = 1024 * 1024;

fn spans(v: &[ChunkStatus]) -> Vec<u64> {
    v.iter().map(|c| c.end - c.start + 1).collect()
}

#[test]
fn two_hundred_mib_in_four_chunks() {
    let v = plan_chunks(200 * MIB, 64 * MIB).unwrap();
    assert_eq!(v.len(), 4);
    assert_eq!(spans(&v), vec![64 * MIB, 64 * MIB, 64 * MIB, 8 * MIB]);
    assert_eq!(v[0].start, 0);
    assert_eq!(v[3].end, 209715199);
    assert_eq!(v.iter().map(|c| c.end - c.start + 1).sum::<u64>(), 209715200);
}

#[test]
fn planned_chunks_tile_the_file() {
    for &(total, size) in &[(1u64, 1u64), (1, 7), (7, 1), (10, 3), (12, 3), (13, 3), (1000, 999), (5 * CHUNK_SIZE + 1, CHUNK_SIZE)] {
        let v = plan_chunks(total, size).unwrap();
        assert_eq!(v.len() as u64, (total + size - 1) / size);
        assert_eq!(v[0].start, 0);
        assert_eq!(v.last().unwrap().end, total - 1);
        for (i, c) in v.iter().enumerate() {
            assert_eq!(c.index, i as u64);
            assert!(c.start <= c.end);
            assert_eq!(c.downloaded, 0);
            assert!(!c.complete);
            assert!(c.sha256.is_none());
            if i + 1 < v.len() {
                assert_eq!(v[i + 1].start, c.end + 1);
                assert_eq!(c.end - c.start + 1, size);
            } else {
                assert!(c.end - c.start + 1 <= size);
            }
        }
        assert_eq!(spans(&v).iter().sum::<u64>(), total);
    }
}

#[test]
fn exact_multiple_has_full_last_chunk() {
    let v = plan_chunks(12, 4).unwrap();
    assert_eq!(spans(&v), vec![4, 4, 4]);
}

#[test]
fn file_smaller_than_a_chunk_is_one_chunk() {
    let v = plan_chunks(10, CHUNK_SIZE).unwrap();
    assert_eq!(v.len(), 1);
    assert_eq!((v[0].start, v[0].end), (0, 9));
}

#[test]
fn largest_file_is_planned_without_overflow() {
    let v = plan_chunks(u64::MAX, u64::MAX / 2).unwrap();
    assert_eq!(v.len(), 3);
    assert_eq!(v[2].end, u64::MAX - 1);
    assert_eq!(spans(&v), vec![u64::MAX / 2, u64::MAX / 2, 1]);
}

#[test]
fn empty_file_is_refused() {
    assert!(matches!(plan_chunks(0, CHUNK_SIZE), Err(PlanError::EmptyFile)));
}

#[test]
fn zero_chunk_size_is_refused() {
    assert!(matches!(plan_chunks(10, 0), Err(PlanError::ZeroChunkSize)));
}
