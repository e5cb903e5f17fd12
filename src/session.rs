use vstd::prelude::*;

use crate::error::{DownloadError, message_of};
use crate::integrity::check_digest;
use crate::text::lower_of;
use crate::plan::{ChunkStatus, span, span_sum, tiles};
use crate::record::{
    DownloadProgress, chunk_ok, complete_count, copy_opt_string, downloaded_sum, is_pending,
    lemma_tiling_sums, record_ok,
};
use crate::seqsum::{
    lemma_complete_count_bounds, lemma_complete_count_update, lemma_downloaded_sum_update,
    lemma_full_sum, lemma_pending_plus_complete,
};

verus! {

/// Where a download is in its life.
#[derive(Clone, Copy, Debug, PartialEq, Eq, Structural)]
pub enum DownloadState {
    Pending,
    Downloading,
    Paused,
    Verifying,
    Complete,
    Failed,
}

/// What the chunk tasks of a session have been asked to do.
#[derive(Clone, Copy, Debug, PartialEq, Eq, Structural)]
pub enum StopSignal {
    Run,
    Pause,
    Cancel,
}

/// A snapshot of a download, as status requests and events report it.
///
/// `progress` is in hundredths of a percent, from 0 to 10000.
#[derive(Clone, Debug)]
pub struct DownloadStatus {
    pub id: String,
    pub url: String,
    pub total_size: u64,
    pub downloaded: u64,
    pub progress: u64,
    pub status: DownloadState,
    pub chunks_completed: u64,
    pub chunks_total: u64,
    pub error: Option<String>,
    pub sha256: Option<String>,
    pub output_path: String,
}

/// The next thing the coordinator does once the chunk tasks are over.
#[derive(Clone, Copy, Debug, PartialEq, Eq, Structural)]
pub enum FinishStep {
    /// Hash the partial file and report the digest.
    Verify,
    /// Move the partial file to the destination path.
    Promote,
    /// Nothing: the session is paused, failed or not finished.
    Stop,
}

/// One download in memory: its snapshot, its record, and the request to its tasks.
#[derive(Clone, Debug)]
pub struct ActiveDownload {
    pub status: DownloadStatus,
    pub progress: DownloadProgress,
    pub stop: StopSignal,
}

/// Progress in hundredths of a percent.
pub open spec fn progress_of(downloaded: nat, total: nat) -> nat {
    if total == 0 {
        0
    } else {
        downloaded * 10000 / total
    }
}

/// A chunk as a resume finds it: complete chunks are kept, the bytes of the others are
/// fetched again from the start of their range.
pub open spec fn restarted(c: ChunkStatus) -> ChunkStatus {
    if c.complete {
        c
    } else {
        ChunkStatus { downloaded: 0, ..c }
    }
}

/// The session's status says what its record says.
pub open spec fn agrees(s: DownloadStatus, p: DownloadProgress) -> bool {
    &&& s.id@ == p.id@
    &&& s.total_size == p.total_size
    &&& s.downloaded == downloaded_sum(p.chunks@)
    &&& s.progress == progress_of(s.downloaded as nat, s.total_size as nat)
    &&& s.chunks_total == p.chunks@.len()
    &&& s.chunks_completed == complete_count(p.chunks@)
}

/// Whether the session's chunk tasks still run.
pub open spec fn is_running(s: DownloadState) -> bool {
    s == DownloadState::Downloading || s == DownloadState::Pending
}

/// The file is wholly downloaded.
pub open spec fn all_complete(p: DownloadProgress) -> bool {
    complete_count(p.chunks@) == p.chunks@.len()
}

fn progress_value(downloaded: u64, total: u64) -> (r: u64)
    requires
        downloaded <= total,
    ensures
        r == progress_of(downloaded as nat, total as nat),
        r <= 10000,
{
    if total == 0 {
        return 0;
    }
    let wide: u128 = downloaded as u128 * 10000u128;
    let q: u128 = wide / (total as u128);
    proof {
        assert(downloaded * 10000 <= total * 10000) by (nonlinear_arith)
            requires downloaded <= total;
        vstd::arithmetic::div_mod::lemma_div_is_ordered(
            downloaded * 10000,
            total * 10000,
            total as int,
        );
        vstd::arithmetic::div_mod::lemma_div_multiples_vanish(10000, total as int);
        assert(total * 10000 == total as int * 10000int);
        assert(10000 * total == total * 10000) by (nonlinear_arith);
    }
    q as u64
}

/// Reads the answer to the probe of the remote file: its size, which must be known,
/// and whether it serves byte ranges, which is required.
pub fn check_probe(content_length: Option<u64>, accept_ranges: Option<&str>) -> (r: Result<
    u64,
    DownloadError,
>)
    ensures
        content_length is None ==> (r matches Err(DownloadError::ProbeFailed(_))),
        content_length is Some && !(accept_ranges matches Some(a) && a@ == "bytes"@) ==> (r matches Err(
            DownloadError::UnsupportedServer,
        )),
        content_length is Some && (accept_ranges matches Some(a) && a@ == "bytes"@) ==> {
            if content_length == Some(0u64) {
                r matches Err(DownloadError::EmptyFile)
            } else {
                r == Ok::<u64, DownloadError>(content_length.unwrap())
            }
        },
{
    let total = match content_length {
        Some(n) => n,
        None => {
            return Err(
                DownloadError::ProbeFailed(
                    String::from_str("Server did not provide Content-Length"),
                ),
            );
        },
    };
    let ranged = match accept_ranges {
        Some(a) => String::from_str(a) == String::from_str("bytes"),
        None => false,
    };
    if !ranged {
        return Err(DownloadError::UnsupportedServer);
    }
    if total == 0 {
        return Err(DownloadError::EmptyFile);
    }
    Ok(total)
}

proof fn lemma_restart_keeps_count(v: Seq<ChunkStatus>)
    ensures
        complete_count(v.map_values(|c: ChunkStatus| restarted(c))) == complete_count(v),
    decreases v.len(),
{
    let w = v.map_values(|c: ChunkStatus| restarted(c));
    if v.len() > 0 {
        lemma_restart_keeps_count(v.drop_last());
        assert(w.drop_last() =~= v.drop_last().map_values(|c: ChunkStatus| restarted(c)));
    }
}

proof fn lemma_tiles_ordered(v: Seq<ChunkStatus>, i: int, j: int)
    requires
        forall|k: int| 0 <= k < v.len() ==> (#[trigger] v[k]).start <= v[k].end,
        forall|k: int| 0 <= k < v.len() - 1 ==> (#[trigger] v[k + 1]).start == v[k].end + 1,
        0 <= i < j < v.len(),
    ensures
        v[i].end < v[j].start,
    decreases j - i,
{
    if j > i + 1 {
        lemma_tiles_ordered(v, i, j - 1);
        let k = j - 1;
        assert(v[k + 1].start == v[k].end + 1);
    } else {
        let k = i;
        assert(v[k + 1].start == v[k].end + 1);
    }
}

/// A resume, whether after a pause or after the process died, fetches again only the
/// chunks that were not complete: `M - N` of them when `N` of `M` were complete, each
/// from the start of its range, none of them sharing a byte with a complete chunk; the
/// complete chunks are kept as they were.
pub proof fn lemma_resume_fetches_only_missing(record: DownloadProgress)
    requires
        record.wf(),
    ensures
        ({
            let chunks = record.chunks@.map_values(|c: ChunkStatus| restarted(c));
            let pending = chunks.filter(|c: ChunkStatus| is_pending(c));
            &&& pending.len() == record.chunks@.len() - complete_count(record.chunks@)
            &&& forall|k: int| 0 <= k < pending.len() ==> (#[trigger] pending[k]).downloaded == 0
            &&& forall|k: int, i: int|
                0 <= k < pending.len() && 0 <= i < record.chunks@.len()
                    && record.chunks@[i].complete ==> (#[trigger] pending[k]).end
                    < (#[trigger] record.chunks@[i]).start || record.chunks@[i].end < pending[k].start
            &&& forall|i: int|
                0 <= i < record.chunks@.len() && (#[trigger] record.chunks@[i]).complete ==> chunks[i]
                    == record.chunks@[i]
        }),
{
    broadcast use vstd::seq_lib::group_filter_ensures;

    let v = record.chunks@;
    let chunks = v.map_values(|c: ChunkStatus| restarted(c));
    let pending = chunks.filter(|c: ChunkStatus| is_pending(c));
    lemma_pending_plus_complete(chunks);
    lemma_restart_keeps_count(v);
    assert forall|k: int| 0 <= k < pending.len() implies (#[trigger] pending[k]).downloaded == 0 && exists|j: int|
        0 <= j < v.len() && !v[j].complete && pending[k].start == v[j].start && pending[k].end == v[j].end by {
        assert(is_pending(pending[k]));
        assert(pending.contains(pending[k]));
        chunks.lemma_filter_contains_rev(|c: ChunkStatus| is_pending(c), pending[k]);
        let j = choose|j: int| 0 <= j < chunks.len() && chunks[j] == pending[k];
        assert(chunks[j] == restarted(v[j]));
    }
    assert forall|k: int, i: int|
        0 <= k < pending.len() && 0 <= i < v.len() && v[i].complete implies (#[trigger] pending[k]).end
        < (#[trigger] v[i]).start || v[i].end < pending[k].start by {
        let j = choose|j: int|
            0 <= j < v.len() && !v[j].complete && pending[k].start == v[j].start && pending[k].end == v[j].end;
        if j < i {
            lemma_tiles_ordered(v, j, i);
        } else {
            lemma_tiles_ordered(v, i, j);
        }
    }
}

/// A record whose chunks are all complete accounts for the whole file: its ranges tile
/// `[0, total_size)`, and the bytes counted as written sum to exactly `total_size`.
pub proof fn lemma_complete_record_covers_file(p: DownloadProgress)
    requires
        p.wf(),
        all_complete(p),
    ensures
        tiles(p.total_size as nat, p.chunks@),
        span_sum(p.chunks@) == p.total_size,
        downloaded_sum(p.chunks@) == p.total_size,
        forall|i: int| 0 <= i < p.chunks@.len() ==> (#[trigger] p.chunks@[i]).downloaded == span(p.chunks@[i]),
{
    let v = p.chunks@;
    lemma_complete_count_bounds(v);
    assert forall|i: int| 0 <= i < v.len() implies (#[trigger] v[i]).downloaded == span(v[i]) by {
        assert(chunk_ok(v[i]));
    }
    lemma_full_sum(v);
    lemma_tiling_sums(p.total_size as nat, v);
}

impl DownloadStatus {
    /// An equal copy.
    pub fn snapshot(&self) -> (r: DownloadStatus)
        ensures
            r == *self,
    {
        DownloadStatus {
            id: self.id.clone(),
            url: self.url.clone(),
            total_size: self.total_size,
            downloaded: self.downloaded,
            progress: self.progress,
            status: self.status,
            chunks_completed: self.chunks_completed,
            chunks_total: self.chunks_total,
            error: copy_opt_string(&self.error),
            sha256: copy_opt_string(&self.sha256),
            output_path: self.output_path.clone(),
        }
    }
}

impl ActiveDownload {
    pub open spec fn wf(&self) -> bool {
        &&& self.progress.wf()
        &&& agrees(self.status, self.progress)
    }

    /// A new download of `total_size` bytes from `url` into `output_path`, planned and
    /// running, with nothing downloaded.
    pub fn start(
        id: String,
        url: String,
        output_path: String,
        total_size: u64,
        expected_sha256: Option<String>,
        now: String,
    ) -> (r: Result<ActiveDownload, DownloadError>)
        ensures
            total_size == 0 <==> r is Err,
            r matches Err(e) ==> e is EmptyFile,
            r matches Ok(a) ==> {
                &&& a.wf()
                &&& a.stop == StopSignal::Run
                &&& a.status.status == DownloadState::Downloading
                &&& a.status.downloaded == 0
                &&& a.status.chunks_completed == 0
                &&& a.status.error is None
                &&& a.status.output_path == output_path
                &&& a.status.url == url
                &&& a.status.sha256 == expected_sha256
                &&& a.progress.id == id
                &&& a.progress.url == url
                &&& a.progress.total_size == total_size
                &&& a.progress.expected_sha256 == expected_sha256
                &&& crate::plan::is_plan(total_size as nat, crate::plan::CHUNK_SIZE as nat, a.progress.chunks@)
            },
    {
        let record = match DownloadProgress::new(id, url, total_size, expected_sha256, now) {
            Ok(p) => p,
            Err(_) => {
                return Err(DownloadError::EmptyFile);
            },
        };
        let ghost planned = record.chunks@;
        let a = ActiveDownload::from_record(record, output_path);
        proof {
            assert(a.progress.chunks@ =~= planned);
            assert(a.status.downloaded == 0 && a.status.chunks_completed == 0) by {
                zero_sums(planned);
            }
        }
        Ok(a)
    }

    /// A session that downloads what `record` has not completed, into `output_path`.
    /// A new download starts from a fresh record; a resume from the stored one.
    pub fn from_record(record: DownloadProgress, output_path: String) -> (r: ActiveDownload)
        requires
            record.wf(),
        ensures
            r.wf(),
            r.stop == StopSignal::Run,
            r.status.status == DownloadState::Downloading,
            r.status.error is None,
            r.status.output_path == output_path,
            r.status.url == record.url,
            r.status.sha256 == record.expected_sha256,
            r.progress.id == record.id,
            r.progress.url == record.url,
            r.progress.total_size == record.total_size,
            r.progress.expected_sha256 == record.expected_sha256,
            r.progress.created_at == record.created_at,
            r.progress.updated_at == record.updated_at,
            r.progress.chunks@ == record.chunks@.map_values(|c: ChunkStatus| restarted(c)),
    {
        let ghost given = record;
        let mut record = record;
        let ghost old_chunks = record.chunks@;
        let n = record.chunks.len();
        let mut i: usize = 0;
        while i < n
            invariant
                n == record.chunks@.len(),
                n == old_chunks.len(),
                i <= n,
                record.id == given.id,
                record.url == given.url,
                record.total_size == given.total_size,
                record.expected_sha256 == given.expected_sha256,
                record.created_at == given.created_at,
                record.updated_at == given.updated_at,
                record_ok(record.total_size as nat, old_chunks),
                forall|k: int| 0 <= k < i ==> #[trigger] record.chunks@[k] == restarted(old_chunks[k]),
                forall|k: int| i <= k < n ==> #[trigger] record.chunks@[k] == old_chunks[k],
            decreases n - i,
        {
            if !record.chunks[i].complete {
                record.chunks[i].downloaded = 0;
            }
            i = i + 1;
        }
        let ghost new_chunks = record.chunks@;
        assert(new_chunks =~= old_chunks.map_values(|c: ChunkStatus| restarted(c)));
        proof {
            assert forall|k: int| 0 <= k < n implies chunk_ok(#[trigger] new_chunks[k]) by {
                assert(chunk_ok(old_chunks[k]));
            }
            assert forall|k: int| 0 <= k < n implies (#[trigger] new_chunks[k]).index == k by {
                assert(old_chunks[k].index == k);
            }
            assert forall|k: int| 0 <= k < n implies (#[trigger] new_chunks[k]).start <= new_chunks[k].end by {
                assert(old_chunks[k].start <= old_chunks[k].end);
            }
            assert forall|k: int| 0 <= k < n - 1 implies (#[trigger] new_chunks[k + 1]).start
                == new_chunks[k].end + 1 by {
                assert(old_chunks[k + 1].start == old_chunks[k].end + 1);
            }
        }
        let downloaded = record.downloaded_total();
        let completed = record.completed_count();
        let progress = progress_value(downloaded, record.total_size);
        let status = DownloadStatus {
            id: record.id.clone(),
            url: record.url.clone(),
            total_size: record.total_size,
            downloaded,
            progress,
            status: DownloadState::Downloading,
            chunks_completed: completed,
            chunks_total: n as u64,
            error: None,
            sha256: copy_opt_string(&record.expected_sha256),
            output_path,
        };
        ActiveDownload { status, progress: record, stop: StopSignal::Run }
    }

    /// Accounts for `len` bytes that arrived for chunk `index`, and gives the absolute
    /// file offset at which they are to be written: the start of the chunk's range plus
    /// what the chunk already holds. After a pause or cancel request, or when the bytes
    /// would run past the chunk's range, nothing is accounted and nothing is written.
    pub fn accept_segment(&mut self, index: u64, len: u64) -> (r: Result<u64, DownloadError>)
        requires
            old(self).wf(),
        ensures
            final(self).wf(),
            old(self).stop != StopSignal::Run ==> r matches Err(DownloadError::Cancelled),
            old(self).stop == StopSignal::Run && index >= old(self).progress.chunks@.len()
                ==> (r matches Err(DownloadError::NoSuchChunk { index: i }) && i == index),
            old(self).stop == StopSignal::Run && index < old(self).progress.chunks@.len() ==> {
                let c = old(self).progress.chunks@[index as int];
                if c.downloaded + len > span(c) {
                    (r matches Err(DownloadError::BodyOverrun { index: i }) && i == index)
                } else {
                    &&& r == Ok::<u64, DownloadError>((c.start + c.downloaded) as u64)
                    &&& final(self).progress.chunks@ == old(self).progress.chunks@.update(
                        index as int,
                        ChunkStatus { downloaded: (c.downloaded + len) as u64, ..c },
                    )
                    &&& final(self).status.downloaded == old(self).status.downloaded + len
                }
            },
            r is Err ==> *final(self) == *old(self),
            r matches Ok(offset) ==> offset + len <= old(self).progress.total_size,
            r is Ok ==> {
                &&& final(self).stop == old(self).stop
                &&& final(self).status == (DownloadStatus {
                    downloaded: final(self).status.downloaded,
                    progress: final(self).status.progress,
                    ..old(self).status
                })
                &&& final(self).progress.total_size == old(self).progress.total_size
                &&& final(self).progress.id == old(self).progress.id
            },
    {
        if self.stop != StopSignal::Run {
            return Err(DownloadError::Cancelled);
        }
        if index >= self.progress.chunks.len() as u64 {
            return Err(DownloadError::NoSuchChunk { index });
        }
        let i = index as usize;
        let ghost old_chunks = self.progress.chunks@;
        let c = &self.progress.chunks[i];
        proof {
            assert(chunk_ok(old_chunks[i as int]));
            end_le_total(old_chunks, i as int, self.progress.total_size as nat);
        }
        let room: u64 = c.end - c.start + 1 - c.downloaded;
        if len > room {
            return Err(DownloadError::BodyOverrun { index });
        }
        let offset: u64 = c.start + c.downloaded;
        let new_count: u64 = c.downloaded + len;
        proof {
            lemma_downloaded_sum_update(old_chunks, i as int, ChunkStatus { downloaded: new_count, ..old_chunks[i as int] });
            lemma_complete_count_update(old_chunks, i as int, ChunkStatus { downloaded: new_count, ..old_chunks[i as int] });
        }
        self.progress.chunks[i].downloaded = new_count;
        assert(self.progress.chunks@ =~= old_chunks.update(i as int, ChunkStatus { downloaded: new_count, ..old_chunks[i as int] }));
        proof {
            let v = self.progress.chunks@;
            assert forall|k: int| 0 <= k < v.len() implies chunk_ok(#[trigger] v[k]) by {
                assert(chunk_ok(old_chunks[k]));
            }
            assert forall|k: int| 0 <= k < v.len() implies (#[trigger] v[k]).index == k by {
                assert(old_chunks[k].index == k);
            }
            assert forall|k: int| 0 <= k < v.len() implies (#[trigger] v[k]).start <= v[k].end by {
                assert(old_chunks[k].start <= old_chunks[k].end);
            }
            assert forall|k: int| 0 <= k < v.len() - 1 implies (#[trigger] v[k + 1]).start == v[k].end + 1 by {
                assert(old_chunks[k + 1].start == old_chunks[k].end + 1);
            }
            lemma_tiling_sums(self.progress.total_size as nat, v);
        }
        self.status.downloaded = self.status.downloaded + len;
        self.status.progress = progress_value(self.status.downloaded, self.status.total_size);
        Ok(offset)
    }
    /// Marks chunk `index` complete once it holds every byte of its range. A chunk that
    /// is already complete stays so and is counted once.
    pub fn finish_chunk(&mut self, index: u64) -> (r: Result<(), DownloadError>)
        requires
            old(self).wf(),
        ensures
            final(self).wf(),
            index >= old(self).progress.chunks@.len() ==> (r matches Err(
                DownloadError::NoSuchChunk { index: i },
            ) && i == index),
            index < old(self).progress.chunks@.len() ==> {
                let c = old(self).progress.chunks@[index as int];
                if c.downloaded < span(c) {
                    r matches Err(DownloadError::ShortBody { index: i }) && i == index
                } else {
                    &&& r is Ok
                    &&& final(self).progress.chunks@ == old(self).progress.chunks@.update(
                        index as int,
                        ChunkStatus { complete: true, ..c },
                    )
                    &&& final(self).status.chunks_completed == old(self).status.chunks_completed
                        + if c.complete {
                        0int
                    } else {
                        1int
                    }
                }
            },
            r is Err ==> *final(self) == *old(self),
            r is Ok ==> {
                &&& final(self).stop == old(self).stop
                &&& final(self).status == (DownloadStatus {
                    chunks_completed: final(self).status.chunks_completed,
                    ..old(self).status
                })
                &&& final(self).progress.total_size == old(self).progress.total_size
                &&& final(self).progress.id == old(self).progress.id
                &&& final(self).progress.expected_sha256 == old(self).progress.expected_sha256
            },
    {
        if index >= self.progress.chunks.len() as u64 {
            return Err(DownloadError::NoSuchChunk { index });
        }
        let i = index as usize;
        let ghost old_chunks = self.progress.chunks@;
        let c = &self.progress.chunks[i];
        proof {
            assert(chunk_ok(old_chunks[i as int]));
            end_le_total(old_chunks, i as int, self.progress.total_size as nat);
        }
        if c.downloaded < c.end - c.start + 1 {
            return Err(DownloadError::ShortBody { index });
        }
        let was_complete = c.complete;
        let ghost newc = ChunkStatus { complete: true, ..old_chunks[i as int] };
        proof {
            lemma_downloaded_sum_update(old_chunks, i as int, newc);
            lemma_complete_count_update(old_chunks, i as int, newc);
            lemma_complete_count_bounds(old_chunks);
        }
        self.progress.chunks[i].complete = true;
        assert(self.progress.chunks@ =~= old_chunks.update(i as int, newc));
        proof {
            let v = self.progress.chunks@;
            assert forall|k: int| 0 <= k < v.len() implies chunk_ok(#[trigger] v[k]) by {
                assert(chunk_ok(old_chunks[k]));
            }
            assert forall|k: int| 0 <= k < v.len() implies (#[trigger] v[k]).index == k by {
                assert(old_chunks[k].index == k);
            }
            assert forall|k: int| 0 <= k < v.len() implies (#[trigger] v[k]).start <= v[k].end by {
                assert(old_chunks[k].start <= old_chunks[k].end);
            }
            assert forall|k: int| 0 <= k < v.len() - 1 implies (#[trigger] v[k + 1]).start == v[k].end + 1 by {
                assert(old_chunks[k + 1].start == old_chunks[k].end + 1);
            }
        }
        if !was_complete {
            self.status.chunks_completed = self.status.chunks_completed + 1;
        }
        Ok(())
    }

    /// Records that a chunk task ended with `error`. The first error of a running
    /// session fails it; a `Cancelled` that a pause or cancel request explains is no
    /// failure; a session that is no longer running keeps its state.
    pub fn chunk_failed(&mut self, error: &DownloadError)
        requires
            old(self).wf(),
        ensures
            final(self).wf(),
            final(self).progress == old(self).progress,
            final(self).stop == old(self).stop,
            (is_running(old(self).status.status) || old(self).status.status
                == DownloadState::Verifying) && !(error is Cancelled && old(self).stop
                != StopSignal::Run) ==> {
                &&& final(self).status.status == DownloadState::Failed
                &&& final(self).status.error matches Some(m) && m@ == message_of(*error)
                &&& final(self).status == (DownloadStatus {
                    status: DownloadState::Failed,
                    error: final(self).status.error,
                    ..old(self).status
                })
            },
            !(is_running(old(self).status.status) || old(self).status.status
                == DownloadState::Verifying) || (error is Cancelled && old(self).stop
                != StopSignal::Run) ==> final(self).status == old(self).status,
    {
        if matches!(error, DownloadError::Cancelled) && self.stop != StopSignal::Run {
            return;
        }
        match self.status.status {
            DownloadState::Downloading | DownloadState::Pending | DownloadState::Verifying => {
                self.status.status = DownloadState::Failed;
                self.status.error = Some(error.message());
            },
            _ => {},
        }
    }

    /// Decides what follows once every chunk task has ended without error: verify the
    /// digest when one is expected, else promote the file. A paused or failed session,
    /// or one with chunks still incomplete, stops here; a session with no destination
    /// path fails rather than lose the file.
    pub fn chunks_done(&mut self) -> (r: FinishStep)
        requires
            old(self).wf(),
        ensures
            final(self).wf(),
            final(self).progress == old(self).progress,
            final(self).stop == old(self).stop,
            old(self).status.status != DownloadState::Downloading || !all_complete(old(self).progress)
                ==> r == FinishStep::Stop && final(self).status == old(self).status,
            old(self).status.status == DownloadState::Downloading && all_complete(old(self).progress)
                ==> {
                if old(self).status.sha256 is Some {
                    &&& r == FinishStep::Verify
                    &&& final(self).status == (DownloadStatus {
                        status: DownloadState::Verifying,
                        ..old(self).status
                    })
                } else if old(self).status.output_path@.len() == 0 {
                    &&& r == FinishStep::Stop
                    &&& final(self).status.status == DownloadState::Failed
                    &&& final(self).status.error matches Some(m) && m@ == message_of(
                        DownloadError::MissingDestination,
                    )
                } else {
                    r == FinishStep::Promote && final(self).status == old(self).status
                }
            },
    {
        if self.status.status != DownloadState::Downloading
            || self.status.chunks_completed != self.status.chunks_total {
            return FinishStep::Stop;
        }
        if self.status.sha256.is_some() {
            self.status.status = DownloadState::Verifying;
            return FinishStep::Verify;
        }
        self.promote_or_fail()
    }

    fn promote_or_fail(&mut self) -> (r: FinishStep)
        requires
            old(self).wf(),
        ensures
            final(self).wf(),
            final(self).progress == old(self).progress,
            final(self).stop == old(self).stop,
            old(self).status.output_path@.len() == 0 ==> {
                &&& r == FinishStep::Stop
                &&& final(self).status.status == DownloadState::Failed
                &&& final(self).status.error matches Some(m) && m@ == message_of(
                    DownloadError::MissingDestination,
                )
                &&& final(self).status == (DownloadStatus {
                    status: DownloadState::Failed,
                    error: final(self).status.error,
                    ..old(self).status
                })
            },
            old(self).status.output_path@.len() != 0 ==> r == FinishStep::Promote
                && final(self).status == old(self).status,
    {
        if self.status.output_path.as_str().is_empty() {
            self.status.status = DownloadState::Failed;
            self.status.error = Some(DownloadError::MissingDestination.message());
            FinishStep::Stop
        } else {
            FinishStep::Promote
        }
    }

    /// Takes the digest of the finished partial file. A match, ignoring case, leads to
    /// promotion; a mismatch fails the session with `HashMismatch` and nothing is
    /// promoted, so the partial file stays where it is.
    pub fn digest_computed(&mut self, actual: &str) -> (r: FinishStep)
        requires
            old(self).wf(),
        ensures
            final(self).wf(),
            final(self).progress == old(self).progress,
            final(self).stop == old(self).stop,
            old(self).status.status != DownloadState::Verifying || old(self).status.sha256 is None
                ==> r == FinishStep::Stop && final(self).status == old(self).status,
            old(self).status.sha256 matches Some(x) ==> old(self).status.status
                == DownloadState::Verifying ==> {
                if lower_of(actual@) == lower_of(x@) {
                    if old(self).status.output_path@.len() == 0 {
                        &&& r == FinishStep::Stop
                        &&& final(self).status.status == DownloadState::Failed
                        &&& final(self).status.error matches Some(m) && m@ == message_of(
                            DownloadError::MissingDestination,
                        )
                    } else {
                        r == FinishStep::Promote && final(self).status == old(self).status
                    }
                } else {
                    &&& r == FinishStep::Stop
                    &&& final(self).status.status == DownloadState::Failed
                    &&& final(self).status.error matches Some(m) && m@ == "SHA256 mismatch: expected "@
                        + x@ + ", got "@ + actual@
                    &&& final(self).status == (DownloadStatus {
                        status: DownloadState::Failed,
                        error: final(self).status.error,
                        ..old(self).status
                    })
                }
            },
    {
        if self.status.status != DownloadState::Verifying {
            return FinishStep::Stop;
        }
        let checked = match &self.status.sha256 {
            Some(expected) => check_digest(expected.as_str(), actual),
            None => {
                return FinishStep::Stop;
            },
        };
        match checked {
            Ok(()) => self.promote_or_fail(),
            Err(e) => {
                self.status.status = DownloadState::Failed;
                self.status.error = Some(e.message());
                FinishStep::Stop
            },
        }
    }

    /// Records that the file now stands at its destination: the session is complete,
    /// at 100%.
    pub fn promoted(&mut self)
        requires
            old(self).wf(),
            all_complete(old(self).progress),
        ensures
            final(self).wf(),
            final(self).progress == old(self).progress,
            final(self).stop == old(self).stop,
            final(self).status == (DownloadStatus {
                status: DownloadState::Complete,
                ..old(self).status
            }),
            final(self).status.progress == 10000,
            final(self).status.downloaded == final(self).status.total_size,
    {
        proof {
            lemma_complete_record_covers_file(self.progress);
            vstd::arithmetic::div_mod::lemma_div_multiples_vanish(10000, self.status.total_size as int);
            assert(self.status.downloaded == self.status.total_size);
            assert(self.status.downloaded * 10000 == 10000 * self.status.total_size) by (nonlinear_arith)
                requires self.status.downloaded == self.status.total_size;
        }
        self.status.status = DownloadState::Complete;
    }

    /// A pause request: chunk tasks stop at their next check and a running session
    /// becomes `Paused`; the record keeps what is complete.
    pub fn pause(&mut self)
        requires
            old(self).wf(),
        ensures
            final(self).wf(),
            final(self).stop == StopSignal::Pause,
            final(self).progress == old(self).progress,
            is_running(old(self).status.status) ==> final(self).status == (DownloadStatus {
                status: DownloadState::Paused,
                ..old(self).status
            }),
            !is_running(old(self).status.status) ==> final(self).status == old(self).status,
    {
        self.stop = StopSignal::Pause;
        if self.status.status == DownloadState::Downloading || self.status.status
            == DownloadState::Pending {
            self.status.status = DownloadState::Paused;
        }
    }

    /// A cancel request: chunk tasks stop at their next check and the session fails
    /// with `CancelledByUser` until it is removed.
    pub fn cancel(&mut self)
        requires
            old(self).wf(),
        ensures
            final(self).wf(),
            final(self).stop == StopSignal::Cancel,
            final(self).progress == old(self).progress,
            final(self).status.status == DownloadState::Failed,
            final(self).status.error matches Some(m) && m@ == message_of(DownloadError::CancelledByUser),
            final(self).status == (DownloadStatus {
                status: DownloadState::Failed,
                error: final(self).status.error,
                ..old(self).status
            }),
    {
        self.stop = StopSignal::Cancel;
        self.status.status = DownloadState::Failed;
        self.status.error = Some(DownloadError::CancelledByUser.message());
    }
}

proof fn zero_sums(v: Seq<ChunkStatus>)
    requires
        forall|i: int| 0 <= i < v.len() ==> (#[trigger] v[i]).downloaded == 0 && !v[i].complete,
    ensures
        downloaded_sum(v) == 0,
        complete_count(v) == 0,
    decreases v.len(),
{
    if v.len() > 0 {
        let u = v.drop_last();
        assert forall|i: int| 0 <= i < u.len() implies (#[trigger] u[i]).downloaded == 0 && !u[i].complete by {
            assert(u[i] == v[i]);
        }
        zero_sums(u);
    }
}

proof fn end_le_total(v: Seq<ChunkStatus>, i: int, total: nat)
    requires
        record_ok(total, v),
        0 <= i < v.len(),
    ensures
        v[i].end + 1 <= total,
    decreases v.len() - i,
{
    if i < v.len() - 1 {
        end_le_total(v, i + 1, total);
        assert(v[i + 1].start == v[i].end + 1);
        assert(v[i + 1].start <= v[i + 1].end);
    }
}

} // verus!
