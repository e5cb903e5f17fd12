use vstd::prelude::*;

verus! {

/// Size of every chunk but the last, in bytes (64 MiB).
pub const CHUNK_SIZE: u64 = 67108864;

/// Progress of one byte range of the file.
///
/// `start` and `end` are byte offsets, `end` inclusive; they never change once planned.
#[derive(Clone, Debug)]
pub struct ChunkStatus {
    pub index: u64,
    pub start: u64,
    pub end: u64,
    pub downloaded: u64,
    pub complete: bool,
    pub sha256: Option<String>,
}

/// Why a file cannot be split into chunks.
#[derive(Clone, Copy, Debug, PartialEq, Eq, Structural)]
pub enum PlanError {
    /// The file has no bytes.
    EmptyFile,
    /// The chunk size is zero.
    ZeroChunkSize,
}

/// Number of bytes in an inclusive range.
pub open spec fn span(c: ChunkStatus) -> int {
    c.end - c.start + 1
}

/// Number of chunks that cover `total` bytes: `ceil(total / size)`.
pub open spec fn chunk_count(total: nat, size: nat) -> nat
    recommends
        size > 0,
{
    ((total + size - 1) as nat) / size
}

/// Last byte offset of chunk `i`.
pub open spec fn chunk_end(total: nat, size: nat, i: nat) -> nat {
    if i * size + size <= total {
        (i * size + size - 1) as nat
    } else {
        (total - 1) as nat
    }
}

/// `v` is the plan of a file of `total` bytes cut in chunks of `size` bytes,
/// with nothing downloaded yet.
pub open spec fn is_plan(total: nat, size: nat, v: Seq<ChunkStatus>) -> bool {
    &&& v.len() == chunk_count(total, size)
    &&& forall|i: int|
        0 <= i < v.len() ==> {
            &&& (#[trigger] v[i]).index == i
            &&& v[i].start == i * size
            &&& v[i].end == chunk_end(total, size, i as nat)
            &&& v[i].downloaded == 0
            &&& !v[i].complete
            &&& v[i].sha256 is None
        }
}

/// Total number of bytes that the ranges of `v` cover.
pub open spec fn span_sum(v: Seq<ChunkStatus>) -> int
    decreases v.len(),
{
    if v.len() == 0 {
        0
    } else {
        span_sum(v.drop_last()) + span(v.last())
    }
}

/// The ranges of `v` tile `[0, total)`: numbered in order, each non-empty, each starting
/// one byte after the previous one ends, the first at 0 and the last ending at `total - 1`.
pub open spec fn tiles(total: nat, v: Seq<ChunkStatus>) -> bool {
    &&& v.len() > 0
    &&& v[0].start == 0
    &&& v.last().end + 1 == total
    &&& forall|i: int| 0 <= i < v.len() ==> (#[trigger] v[i]).index == i
    &&& forall|i: int| 0 <= i < v.len() ==> (#[trigger] v[i]).start <= v[i].end
    &&& forall|i: int| 0 <= i < v.len() - 1 ==> (#[trigger] v[i + 1]).start == v[i].end + 1
}

proof fn lemma_count_bounds(total: nat, size: nat)
    requires
        total > 0,
        size > 0,
    ensures
        chunk_count(total, size) >= 1,
        (chunk_count(total, size) - 1) * size < total,
        total <= chunk_count(total, size) * size,
{
    let n = chunk_count(total, size) as int;
    let t = total + size - 1;
    let z = size as int;
    vstd::arithmetic::div_mod::lemma_fundamental_div_mod(t, z);
    vstd::arithmetic::div_mod::lemma_mod_bound(t, z);
    let r = t % z;
    assert(t == z * n + r);
    let p = z * n;
    assert(p == n * z) by (nonlinear_arith)
        requires p == z * n;
    if n == 0 {
        assert(p == 0) by (nonlinear_arith)
            requires p == z * n, n == 0;
    }
    assert((n - 1) * z == p - z) by (nonlinear_arith)
        requires p == z * n;
}

proof fn lemma_prefix_span_sum(total: nat, size: nat, v: Seq<ChunkStatus>, k: int)
    requires
        total > 0,
        size > 0,
        is_plan(total, size, v),
        0 <= k < v.len(),
    ensures
        span_sum(v.subrange(0, k)) == k * size,
    decreases k,
{
    lemma_count_bounds(total, size);
    if k > 0 {
        lemma_prefix_span_sum(total, size, v, k - 1);
        assert(v.subrange(0, k).drop_last() =~= v.subrange(0, k - 1));
        let j = k - 1;
        assert((j + 1) * size <= (v.len() - 1) * size) by (nonlinear_arith)
            requires j + 1 <= v.len() - 1, size > 0;
        assert((j + 1) * size == j * size + size) by (nonlinear_arith);
        assert(span(v[j]) == size);
        assert(k * size == j * size + size) by (nonlinear_arith)
            requires k == j + 1;
    } else {
        assert(v.subrange(0, 0).len() == 0);
    }
}

/// For any file size and chunk size, the planned chunks are sorted by index, contiguous,
/// non-overlapping, cover `[0, total)` exactly (their lengths sum to `total`), and every
/// chunk but the last is exactly `size` bytes long, the last at most `size`.
pub proof fn lemma_plan_tiles_file(total: u64, size: u64, v: Seq<ChunkStatus>)
    requires
        total > 0,
        size > 0,
        is_plan(total as nat, size as nat, v),
    ensures
        tiles(total as nat, v),
        span_sum(v) == total,
        forall|i: int, j: int| 0 <= i < j < v.len() ==> v[i].end < v[j].start,
        forall|i: int| 0 <= i < v.len() - 1 ==> span(#[trigger] v[i]) == size,
        span(v.last()) <= size,
{
    let t = total as nat;
    let z = size as nat;
    lemma_count_bounds(t, z);
    let n = v.len() as int;
    assert forall|i: int| 0 <= i < n implies (#[trigger] v[i]).start <= v[i].end
        && v[i].end < i * size + size && i * size < total by {
        assert(i * size <= (n - 1) * size) by (nonlinear_arith)
            requires i <= n - 1, size > 0;
    }
    assert forall|i: int| 0 <= i < n - 1 implies span(#[trigger] v[i]) == size
        && v[i + 1].start == v[i].end + 1 by {
        assert((i + 1) * size <= (n - 1) * size) by (nonlinear_arith)
            requires i + 1 <= n - 1, size > 0;
        assert((i + 1) * size == i * size + size) by (nonlinear_arith);
    }
    assert forall|i: int, j: int| 0 <= i < j < n implies v[i].end < v[j].start by {
        assert((i + 1) * size <= j * size) by (nonlinear_arith)
            requires i + 1 <= j, size > 0;
        assert((i + 1) * size == i * size + size) by (nonlinear_arith);
    }
    assert(n * size == (n - 1) * size + size) by (nonlinear_arith);
    assert(v.last().end + 1 == total);
    assert(v[0].start == 0) by {
        assert(0 * size == 0) by (nonlinear_arith);
    }
    lemma_prefix_span_sum(t, z, v, n - 1);
    assert(v.drop_last() =~= v.subrange(0, n - 1));
}

/// Splits a file of `total_size` bytes into chunks of `chunk_size` bytes, the last one
/// possibly shorter, none of them downloaded yet.
pub fn plan_chunks(total_size: u64, chunk_size: u64) -> (r: Result<Vec<ChunkStatus>, PlanError>)
    ensures
        chunk_size == 0 ==> r == Err::<Vec<ChunkStatus>, PlanError>(PlanError::ZeroChunkSize),
        chunk_size > 0 && total_size == 0 ==> r == Err::<Vec<ChunkStatus>, PlanError>(
            PlanError::EmptyFile,
        ),
        chunk_size > 0 && total_size > 0 ==> r is Ok,
        r matches Ok(v) ==> is_plan(total_size as nat, chunk_size as nat, v@),
{
    if chunk_size == 0 {
        return Err(PlanError::ZeroChunkSize);
    }
    if total_size == 0 {
        return Err(PlanError::EmptyFile);
    }
    proof {
        let q = total_size as int / chunk_size as int;
        vstd::arithmetic::div_mod::lemma_fundamental_div_mod(total_size as int, chunk_size as int);
        vstd::arithmetic::div_mod::lemma_mod_bound(total_size as int, chunk_size as int);
        assert(q * chunk_size >= q) by (nonlinear_arith)
            requires q >= 0, chunk_size >= 1;
        assert(q * chunk_size == chunk_size * q) by (nonlinear_arith);
    }
    let count: u64 = total_size / chunk_size + if total_size % chunk_size == 0 {
        0u64
    } else {
        1u64
    };
    proof {
        let t = (total_size + chunk_size - 1) as nat;
        let s = chunk_size as nat;
        vstd::arithmetic::div_mod::lemma_fundamental_div_mod(total_size as int, s as int);
        vstd::arithmetic::div_mod::lemma_fundamental_div_mod(t as int, s as int);
        vstd::arithmetic::div_mod::lemma_mod_bound(total_size as int, s as int);
        vstd::arithmetic::div_mod::lemma_mod_bound(t as int, s as int);
        let q = total_size as int / s as int;
        let m = total_size as int % s as int;
        if m == 0 {
            vstd::arithmetic::div_mod::lemma_div_multiples_vanish_fancy(q, s as int - 1, s as int);
            assert(t == s * q + (s - 1));
        } else {
            assert(t == s * (q + 1) + (m - 1)) by (nonlinear_arith)
                requires total_size == s * q + m, t == total_size + s - 1;
            vstd::arithmetic::div_mod::lemma_div_multiples_vanish_fancy(q + 1, m - 1, s as int);
        }
        lemma_count_bounds(total_size as nat, s);
    }
    let mut chunks: Vec<ChunkStatus> = Vec::new();
    let mut i: u64 = 0;
    while i < count
        invariant
            chunk_size > 0,
            total_size > 0,
            count == chunk_count(total_size as nat, chunk_size as nat),
            (count - 1) * chunk_size < total_size,
            i <= count,
            chunks@.len() == i,
            forall|k: int|
                0 <= k < i ==> {
                    &&& (#[trigger] chunks@[k]).index == k
                    &&& chunks@[k].start == k * chunk_size
                    &&& chunks@[k].end == chunk_end(total_size as nat, chunk_size as nat, k as nat)
                    &&& chunks@[k].downloaded == 0
                    &&& !chunks@[k].complete
                    &&& chunks@[k].sha256 is None
                },
        decreases count - i,
    {
        assert(i * chunk_size < total_size) by (nonlinear_arith)
            requires i <= count - 1, (count - 1) * chunk_size < total_size, chunk_size > 0;
        let start: u64 = i * chunk_size;
        let end: u64 = if total_size - start >= chunk_size {
            start + (chunk_size - 1)
        } else {
            total_size - 1
        };
        assert(end == chunk_end(total_size as nat, chunk_size as nat, i as nat));
        chunks.push(ChunkStatus { index: i, start, end, downloaded: 0, complete: false, sha256: None });
        i = i + 1;
    }
    Ok(chunks)
}

} // verus!
