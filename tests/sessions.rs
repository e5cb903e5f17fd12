use chunked_download::error::DownloadError;
use chunked_download::manager::DownloadManager;
use chunked_download::plan::CHUNK_SIZE;
use chunked_download::record::DownloadProgress;
use chunked_download::session::{check_probe, ActiveDownload, DownloadState, FinishStep, StopSignal};

fn session(total: u64, expected: Option<&str>, out: &str) -> ActiveDownload {
    ActiveDownload::start(
        "id-1".to_string(),
        "http://example.test/f".to_string(),
        out.to_string(),
        total,
        expected.map(|s| s.to_string()),
        "1700000000".to_string(),
    )
    .unwrap()
}

fn fill(a: &mut ActiveDownload, index: u64) {
    let (start, end) = (a.progress.chunks[index as usize].start, a.progress.chunks[index as usize].end);
    assert_eq!(a.accept_segment(index, end - start + 1).unwrap(), start);
    a.finish_chunk(index).unwrap();
}

#[test]
fn probe_answers() {
    assert!(matches!(check_probe(None, Some("bytes")), Err(DownloadError::ProbeFailed(_))));
    assert!(matches!(check_probe(Some(10), None), Err(DownloadError::UnsupportedServer)));
    assert!(matches!(check_probe(Some(10), Some("none")), Err(DownloadError::UnsupportedServer)));
    assert!(matches!(check_probe(Some(0), Some("bytes")), Err(DownloadError::EmptyFile)));
    assert!(matches!(check_probe(Some(10), Some("bytes")), Ok(10)));
}

#[test]
fn new_session_is_planned_and_running() {
    let a = session(3 * CHUNK_SIZE - 5, None, "/tmp/out.bin");
    assert_eq!(a.status.status, DownloadState::Downloading);
    assert_eq!(a.status.chunks_total, 3);
    assert_eq!(a.status.chunks_completed, 0);
    assert_eq!(a.status.downloaded, 0);
    assert_eq!(a.status.progress, 0);
    assert_eq!(a.stop, StopSignal::Run);
    assert_eq!(a.progress.created_at, "1700000000");
    assert_eq!(a.status.url, "http://example.test/f");
    assert_eq!(a.status.output_path, "/tmp/out.bin");
    assert!(a.status.sha256.is_none());
    assert_eq!(session(10, Some("abc"), "/o").status.sha256.as_deref(), Some("abc"));
    assert!(a.progress.is_valid());
}

#[test]
fn empty_download_is_refused() {
    let r = ActiveDownload::start("x".into(), "u".into(), "o".into(), 0, None, "0".into());
    assert!(matches!(r, Err(DownloadError::EmptyFile)));
}

#[test]
fn segments_land_at_running_offsets() {
    let mut a = session(100, None, "/tmp/out.bin");
    assert_eq!(a.accept_segment(0, 60).unwrap(), 0);
    assert_eq!(a.accept_segment(0, 30).unwrap(), 60);
    assert_eq!(a.status.downloaded, 90);
    assert_eq!(a.status.progress, 9000);
    assert!(matches!(a.accept_segment(0, 11), Err(DownloadError::BodyOverrun { index: 0 })));
    assert!(matches!(a.finish_chunk(0), Err(DownloadError::ShortBody { index: 0 })));
    assert!(matches!(a.accept_segment(3, 1), Err(DownloadError::NoSuchChunk { index: 3 })));
    assert_eq!(a.accept_segment(0, 10).unwrap(), 90);
    assert_eq!(a.status.progress, 10000);
}

#[test]
fn second_chunk_starts_at_its_range() {
    let mut a = session(2 * CHUNK_SIZE, None, "/tmp/out.bin");
    assert_eq!(a.accept_segment(1, 5).unwrap(), CHUNK_SIZE);
    assert_eq!(a.accept_segment(1, 5).unwrap(), CHUNK_SIZE + 5);
}

#[test]
fn download_without_hash_completes() {
    let mut a = session(100, None, "/tmp/out.bin");
    fill(&mut a, 0);
    assert_eq!(a.status.chunks_completed, 1);
    assert_eq!(a.chunks_done(), FinishStep::Promote);
    a.promoted();
    assert_eq!(a.status.status, DownloadState::Complete);
    assert_eq!(a.status.progress, 10000);
    assert_eq!(a.status.downloaded, 100);
}

#[test]
fn finishing_a_chunk_twice_counts_once() {
    let mut a = session(100, None, "/tmp/out.bin");
    fill(&mut a, 0);
    a.finish_chunk(0).unwrap();
    assert_eq!(a.status.chunks_completed, 1);
}

#[test]
fn unfinished_download_does_not_promote() {
    let mut a = session(2 * CHUNK_SIZE, None, "/tmp/out.bin");
    fill(&mut a, 0);
    assert_eq!(a.chunks_done(), FinishStep::Stop);
    assert_eq!(a.status.status, DownloadState::Downloading);
}

#[test]
fn matching_hash_promotes() {
    let mut a = session(100, Some("ABCDEF"), "/tmp/out.bin");
    fill(&mut a, 0);
    assert_eq!(a.chunks_done(), FinishStep::Verify);
    assert_eq!(a.status.status, DownloadState::Verifying);
    assert_eq!(a.digest_computed("abcdef"), FinishStep::Promote);
}

#[test]
fn wrong_hash_fails_without_promotion() {
    let mut a = session(100, Some("00ff"), "/tmp/out.bin");
    fill(&mut a, 0);
    assert_eq!(a.chunks_done(), FinishStep::Verify);
    assert_eq!(a.digest_computed("11ee"), FinishStep::Stop);
    assert_eq!(a.status.status, DownloadState::Failed);
    assert_eq!(a.status.error.as_deref(), Some("SHA256 mismatch: expected 00ff, got 11ee"));
}

#[test]
fn missing_destination_fails_instead_of_dropping_the_file() {
    let mut a = session(100, None, "");
    fill(&mut a, 0);
    assert_eq!(a.chunks_done(), FinishStep::Stop);
    assert_eq!(a.status.status, DownloadState::Failed);
    assert_eq!(a.status.error.as_deref(), Some("No destination path for the finished file"));
}

#[test]
fn first_error_wins() {
    let mut a = session(100, None, "/tmp/out.bin");
    a.chunk_failed(&DownloadError::Transport("reset".into()));
    a.chunk_failed(&DownloadError::Io("disk full".into()));
    assert_eq!(a.status.status, DownloadState::Failed);
    assert_eq!(a.status.error.as_deref(), Some("Request error: reset"));
}

#[test]
fn pause_is_not_a_failure() {
    let mut a = session(100, None, "/tmp/out.bin");
    a.pause();
    assert_eq!(a.status.status, DownloadState::Paused);
    assert!(matches!(a.accept_segment(0, 1), Err(DownloadError::Cancelled)));
    a.chunk_failed(&DownloadError::Cancelled);
    assert_eq!(a.status.status, DownloadState::Paused);
    assert!(a.status.error.is_none());
    assert_eq!(a.chunks_done(), FinishStep::Stop);
}

#[test]
fn cancel_stops_every_segment() {
    let mut a = session(2 * CHUNK_SIZE, None, "/tmp/out.bin");
    a.accept_segment(0, 10).unwrap();
    a.cancel();
    assert_eq!(a.status.status, DownloadState::Failed);
    assert_eq!(a.status.error.as_deref(), Some("Cancelled by user"));
    for i in 0..2 {
        assert!(matches!(a.accept_segment(i, 1), Err(DownloadError::Cancelled)));
    }
    assert_eq!(a.status.downloaded, 10);
}

#[test]
fn resume_fetches_only_missing_chunks() {
    let mut a = session(3 * CHUNK_SIZE, None, "/tmp/out.bin");
    fill(&mut a, 0);
    fill(&mut a, 2);
    a.accept_segment(1, 1000).unwrap();
    let record: DownloadProgress = a.progress.duplicate();
    assert!(record.is_valid());
    assert_eq!(record.completed_count(), 2);
    assert_eq!(record.downloaded_total(), 2 * CHUNK_SIZE + 1000);
    let b = ActiveDownload::from_record(record, "/tmp/out.bin".into());
    assert_eq!(b.status.chunks_completed, 2);
    assert_eq!(b.status.downloaded, 2 * CHUNK_SIZE);
    assert_eq!(b.status.status, DownloadState::Downloading);
    let pending = b.progress.pending_chunks();
    assert_eq!(pending.len(), 1);
    assert_eq!(pending[0].index, 1);
    assert_eq!(pending[0].downloaded, 0);
    assert_eq!((pending[0].start, pending[0].end), (CHUNK_SIZE, 2 * CHUNK_SIZE - 1));
}

#[test]
fn damaged_records_are_rejected() {
    let a = session(3 * CHUNK_SIZE, None, "/tmp/out.bin");
    let mut r = a.progress.duplicate();
    r.chunks[1].start += 1;
    assert!(!r.is_valid());
    let mut r = a.progress.duplicate();
    r.chunks[2].complete = true;
    assert!(!r.is_valid());
    let mut r = a.progress.duplicate();
    r.total_size += 1;
    assert!(!r.is_valid());
    let mut r = a.progress.duplicate();
    r.chunks.clear();
    assert!(!r.is_valid());
}

#[test]
fn registry_tracks_sessions_by_id() {
    let mut m = DownloadManager::new();
    assert!(m.list().is_empty());
    m.register(session(100, None, "/tmp/a"));
    let mut other = ActiveDownload::start("id-2".into(), "u2".into(), "/tmp/b".into(), 50, None, "1".into()).unwrap();
    other.accept_segment(0, 5).unwrap();
    m.register(other);
    let ids: Vec<String> = m.list().into_iter().map(|s| s.id).collect();
    assert_eq!(ids, vec!["id-1".to_string(), "id-2".to_string()]);
    assert_eq!(m.get_status("id-2").unwrap().downloaded, 5);
    assert!(matches!(m.get_status("nope"), Err(DownloadError::NotFound)));
    m.register(session(100, None, "/tmp/a2"));
    assert_eq!(m.list().len(), 2);
    assert_eq!(m.get_status("id-1").unwrap().output_path, "/tmp/a2");
}

#[test]
fn registry_pause_and_cancel() {
    let mut m = DownloadManager::new();
    m.register(session(100, None, "/tmp/a"));
    let rec = m.pause("id-1").unwrap();
    assert_eq!(rec.id, "id-1");
    assert_eq!(m.get_status("id-1").unwrap().status, DownloadState::Paused);
    assert!(matches!(m.pause("nope"), Err(DownloadError::NotFound)));
    assert!(m.cancel("id-1"));
    assert!(matches!(m.get_status("id-1"), Err(DownloadError::NotFound)));
    assert!(!m.cancel("id-1"));
}

#[test]
fn take_and_register_round_trip() {
    let mut m = DownloadManager::new();
    m.register(session(100, None, "/tmp/a"));
    let mut a = m.take("id-1").unwrap();
    assert!(m.take("id-1").is_none());
    a.accept_segment(0, 7).unwrap();
    m.register(a);
    assert_eq!(m.get_status("id-1").unwrap().downloaded, 7);
}
