use vstd::prelude::*;

use crate::plan::{
    ChunkStatus, PlanError, CHUNK_SIZE, is_plan, lemma_plan_tiles_file, plan_chunks, span,
    span_sum, tiles,
};

verus! {

/// The durable description of a download: which of its chunks are complete.
/// It is all that is needed to resume after the process restarts.
#[derive(Clone, Debug)]
pub struct DownloadProgress {
    pub id: String,
    pub url: String,
    pub total_size: u64,
    pub expected_sha256: Option<String>,
    pub chunks: Vec<ChunkStatus>,
    pub created_at: String,
    pub updated_at: String,
}

/// A chunk's counters agree with its range: it holds no more bytes than its range,
/// and it is complete only with all of them.
pub open spec fn chunk_ok(c: ChunkStatus) -> bool {
    &&& c.downloaded <= span(c)
    &&& c.complete ==> c.downloaded == span(c)
}

pub open spec fn is_pending(c: ChunkStatus) -> bool {
    !c.complete
}

/// Bytes counted as downloaded over all chunks of `v`.
pub open spec fn downloaded_sum(v: Seq<ChunkStatus>) -> int
    decreases v.len(),
{
    if v.len() == 0 {
        0
    } else {
        downloaded_sum(v.drop_last()) + v.last().downloaded
    }
}

/// Number of complete chunks in `v`.
pub open spec fn complete_count(v: Seq<ChunkStatus>) -> int
    decreases v.len(),
{
    if v.len() == 0 {
        0
    } else {
        complete_count(v.drop_last()) + if v.last().complete {
            1int
        } else {
            0int
        }
    }
}

/// A well-formed record: its chunks tile the file and their counters agree with
/// their ranges.
pub open spec fn record_ok(total: nat, v: Seq<ChunkStatus>) -> bool {
    &&& tiles(total, v)
    &&& forall|i: int| 0 <= i < v.len() ==> chunk_ok(#[trigger] v[i])
}

/// An equal copy of an optional string.
pub fn copy_opt_string(o: &Option<String>) -> (r: Option<String>)
    ensures
        r == *o,
{
    match o {
        Some(s) => Some(s.clone()),
        None => None,
    }
}

impl ChunkStatus {
    /// An equal copy.
    pub fn duplicate(&self) -> (r: ChunkStatus)
        ensures
            r == *self,
    {
        ChunkStatus {
            index: self.index,
            start: self.start,
            end: self.end,
            downloaded: self.downloaded,
            complete: self.complete,
            sha256: copy_opt_string(&self.sha256),
        }
    }
}

/// The span sum of a tiling is the file size, and the bytes counted as downloaded never
/// exceed the span sum.
pub proof fn lemma_tiling_sums(total: nat, v: Seq<ChunkStatus>)
    requires
        record_ok(total, v),
    ensures
        span_sum(v) == total,
        0 <= downloaded_sum(v) <= total,
{
    lemma_prefix_sums(v, v.len() as int);
    assert(v.subrange(0, v.len() as int) =~= v);
}

proof fn lemma_prefix_sums(v: Seq<ChunkStatus>, k: int)
    requires
        v.len() > 0,
        v[0].start == 0,
        forall|i: int| 0 <= i < v.len() ==> (#[trigger] v[i]).start <= v[i].end,
        forall|i: int| 0 <= i < v.len() - 1 ==> (#[trigger] v[i + 1]).start == v[i].end + 1,
        forall|i: int| 0 <= i < v.len() ==> chunk_ok(#[trigger] v[i]),
        0 <= k <= v.len(),
    ensures
        k > 0 ==> span_sum(v.subrange(0, k)) == v[k - 1].end + 1,
        0 <= downloaded_sum(v.subrange(0, k)) <= span_sum(v.subrange(0, k)),
    decreases k,
{
    if k > 0 {
        lemma_prefix_sums(v, k - 1);
        assert(v.subrange(0, k).drop_last() =~= v.subrange(0, k - 1));
        if k > 1 {
            let j = k - 2;
            assert(v[j + 1].start == v[j].end + 1);
        }
    } else {
        assert(v.subrange(0, 0).len() == 0);
    }
}

proof fn lemma_end_bounded(v: Seq<ChunkStatus>, i: int)
    requires
        v.len() > 0,
        forall|k: int| 0 <= k < v.len() ==> (#[trigger] v[k]).start <= v[k].end,
        forall|k: int| 0 <= k < v.len() - 1 ==> (#[trigger] v[k + 1]).start == v[k].end + 1,
        0 <= i < v.len(),
    ensures
        v[i].end <= v.last().end,
    decreases v.len() - i,
{
    if i < v.len() - 1 {
        lemma_end_bounded(v, i + 1);
        assert(v[i + 1].start == v[i].end + 1);
    }
}

/// Two records with the same fields and the same chunks.
pub open spec fn same_record(a: DownloadProgress, b: DownloadProgress) -> bool {
    &&& a.id == b.id
    &&& a.url == b.url
    &&& a.total_size == b.total_size
    &&& a.expected_sha256 == b.expected_sha256
    &&& a.chunks@ == b.chunks@
    &&& a.created_at == b.created_at
    &&& a.updated_at == b.updated_at
}

impl DownloadProgress {
    pub open spec fn wf(&self) -> bool {
        record_ok(self.total_size as nat, self.chunks@)
    }

    /// The record of a new download of `total_size` bytes: every chunk planned and none
    /// downloaded; created and updated at `now`.
    pub fn new(
        id: String,
        url: String,
        total_size: u64,
        expected_sha256: Option<String>,
        now: String,
    ) -> (r: Result<DownloadProgress, PlanError>)
        ensures
            total_size == 0 <==> r is Err,
            r matches Err(e) ==> e == PlanError::EmptyFile,
            r matches Ok(p) ==> {
                &&& p.wf()
                &&& is_plan(total_size as nat, CHUNK_SIZE as nat, p.chunks@)
                &&& p.id == id && p.url == url && p.total_size == total_size
                &&& p.expected_sha256 == expected_sha256
                &&& p.created_at == now && p.updated_at == now
            },
    {
        let chunks = match plan_chunks(total_size, CHUNK_SIZE) {
            Ok(v) => v,
            Err(e) => {
                return Err(e);
            },
        };
        proof {
            lemma_plan_tiles_file(total_size, CHUNK_SIZE, chunks@);
        }
        let created_at = now.clone();
        Ok(
            DownloadProgress {
                id,
                url,
                total_size,
                expected_sha256,
                chunks,
                created_at,
                updated_at: now,
            },
        )
    }

    /// An equal copy.
    pub fn duplicate(&self) -> (r: DownloadProgress)
        ensures
            same_record(r, *self),
    {
        let mut chunks: Vec<ChunkStatus> = Vec::new();
        let mut i: usize = 0;
        while i < self.chunks.len()
            invariant
                i <= self.chunks@.len(),
                chunks@ == self.chunks@.subrange(0, i as int),
            decreases self.chunks@.len() - i,
        {
            chunks.push(self.chunks[i].duplicate());
            i = i + 1;
            assert(chunks@ =~= self.chunks@.subrange(0, i as int));
        }
        assert(chunks@ =~= self.chunks@);
        DownloadProgress {
            id: self.id.clone(),
            url: self.url.clone(),
            total_size: self.total_size,
            expected_sha256: copy_opt_string(&self.expected_sha256),
            chunks,
            created_at: self.created_at.clone(),
            updated_at: self.updated_at.clone(),
        }
    }

    /// Checks a record read back from storage: it is accepted exactly when it is
    /// well formed.
    pub fn is_valid(&self) -> (r: bool)
        ensures
            r == self.wf(),
    {
        let n = self.chunks.len();
        if n == 0 || self.total_size == 0 {
            return false;
        }
        if self.chunks[0].start != 0 || self.chunks[n - 1].end != self.total_size - 1 {
            return false;
        }
        let mut i: usize = 0;
        while i < n
            invariant
                n == self.chunks@.len(),
                n > 0,
                i <= n,
                self.chunks@[0].start == 0,
                self.chunks@.last().end + 1 == self.total_size,
                forall|k: int| 0 <= k < i ==> (#[trigger] self.chunks@[k]).index == k,
                forall|k: int| 0 <= k < i ==> (#[trigger] self.chunks@[k]).start <= self.chunks@[k].end,
                forall|k: int| 0 <= k < i ==> chunk_ok(#[trigger] self.chunks@[k]),
                forall|k: int| 0 <= k < i && k < n - 1 ==> (#[trigger] self.chunks@[k + 1]).start
                    == self.chunks@[k].end + 1,
            decreases n - i,
        {
            let c = &self.chunks[i];
            if c.index != i as u64 || c.start > c.end {
                return false;
            }
            let len: u64 = c.end - c.start;
            if c.downloaded > 0 && c.downloaded - 1 > len {
                return false;
            }
            if c.complete && (c.downloaded == 0 || c.downloaded - 1 != len) {
                return false;
            }
            assert(i + 1 < n ==> self.chunks@[i as int + 1].start <= u64::MAX);
            if i + 1 < n && (c.end == u64::MAX || self.chunks[i + 1].start != c.end + 1) {
                return false;
            }
            i = i + 1;
        }
        true
    }

    /// The chunks that are not complete, in order: the ones a resume fetches again.
    pub fn pending_chunks(&self) -> (r: Vec<ChunkStatus>)
        ensures
            r@ == self.chunks@.filter(|c: ChunkStatus| is_pending(c)),
    {
        let mut r: Vec<ChunkStatus> = Vec::new();
        let mut i: usize = 0;
        while i < self.chunks.len()
            invariant
                i <= self.chunks@.len(),
                r@ == self.chunks@.subrange(0, i as int).filter(|c: ChunkStatus| is_pending(c)),
            decreases self.chunks@.len() - i,
        {
            proof {
                let pre = self.chunks@.subrange(0, i as int + 1);
                assert(pre.drop_last() =~= self.chunks@.subrange(0, i as int));
                reveal(Seq::filter);
            }
            if !self.chunks[i].complete {
                r.push(self.chunks[i].duplicate());
            }
            i = i + 1;
        }
        assert(self.chunks@.subrange(0, self.chunks@.len() as int) =~= self.chunks@);
        r
    }

    /// How many chunks are complete.
    pub fn completed_count(&self) -> (r: u64)
        ensures
            r == complete_count(self.chunks@),
    {
        let mut r: u64 = 0;
        let mut i: usize = 0;
        while i < self.chunks.len()
            invariant
                i <= self.chunks@.len(),
                r == complete_count(self.chunks@.subrange(0, i as int)),
                r <= i,
            decreases self.chunks@.len() - i,
        {
            proof {
                let pre = self.chunks@.subrange(0, i as int + 1);
                assert(pre.drop_last() =~= self.chunks@.subrange(0, i as int));
            }
            if self.chunks[i].complete {
                r = r + 1;
            }
            i = i + 1;
        }
        assert(self.chunks@.subrange(0, self.chunks@.len() as int) =~= self.chunks@);
        r
    }

    /// Bytes counted as downloaded over all chunks.
    pub fn downloaded_total(&self) -> (r: u64)
        requires
            self.wf(),
        ensures
            r == downloaded_sum(self.chunks@),
            r <= self.total_size,
    {
        let mut r: u64 = 0;
        let mut i: usize = 0;
        proof {
            lemma_tiling_sums(self.total_size as nat, self.chunks@);
        }
        while i < self.chunks.len()
            invariant
                self.wf(),
                i <= self.chunks@.len(),
                r == downloaded_sum(self.chunks@.subrange(0, i as int)),
            decreases self.chunks@.len() - i,
        {
            proof {
                let pre = self.chunks@.subrange(0, i as int + 1);
                assert(pre.drop_last() =~= self.chunks@.subrange(0, i as int));
                lemma_prefix_sums(self.chunks@, i as int + 1);
                lemma_end_bounded(self.chunks@, i as int);
            }
            r = r + self.chunks[i].downloaded;
            i = i + 1;
        }
        assert(self.chunks@.subrange(0, self.chunks@.len() as int) =~= self.chunks@);
        r
    }
}

} // verus!
