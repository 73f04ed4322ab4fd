//! Ingestion counters used for diagnostics.
//!
//! Tracks the number of documents indexed, the cumulative number of chunks
//! indexed and the chunk size used by the most recent ingestion.  Counters wrap
//! on overflow, as atomic additions do.
use vstd::prelude::*;

verus! {

/// Counters describing ingestion activity.
#[derive(Debug, Default)]
pub struct CodeMetrics {
    documents_indexed: u64,
    chunks_indexed: u64,
    last_chunk_size: u64,
}

/// Immutable view of ingestion counters used for reporting.
#[derive(Debug, Clone, Copy, PartialEq, Eq, Structural)]
pub struct MetricsSnapshot {
    /// Number of documents that have been indexed since startup.
    pub documents_indexed: u64,
    /// Total chunk count produced across all indexed documents.
    pub chunks_indexed: u64,
    /// Chunk size used for the most recently ingested document, if any.
    pub last_chunk_size: Option<u64>,
}

/// `a + b` wrapped into `u64`.
pub open spec fn wrapping_add_u64(a: u64, b: u64) -> u64 {
    if a + b <= u64::MAX {
        (a + b) as u64
    } else {
        (a + b - u64::MAX - 1) as u64
    }
}

impl CodeMetrics {
    /// Number of documents recorded so far.
    pub closed spec fn documents(self) -> u64 {
        self.documents_indexed
    }

    /// Number of chunks recorded so far.
    pub closed spec fn chunks(self) -> u64 {
        self.chunks_indexed
    }

    /// Chunk size passed with the latest recorded document (zero before any).
    pub closed spec fn last_size(self) -> u64 {
        self.last_chunk_size
    }

    /// The snapshot these counters report.
    pub open spec fn spec_snapshot(self) -> MetricsSnapshot {
        MetricsSnapshot {
            documents_indexed: self.documents(),
            chunks_indexed: self.chunks(),
            last_chunk_size: if self.documents() == 0 || self.last_size() == 0 {
                None
            } else {
                Some(self.last_size())
            },
        }
    }

    /// Creates an empty metrics accumulator.
    pub fn new() -> (m: Self)
        ensures
            m.documents() == 0,
            m.chunks() == 0,
            m.last_size() == 0,
    {
        CodeMetrics { documents_indexed: 0, chunks_indexed: 0, last_chunk_size: 0 }
    }

    /// Records a processed document, the number of chunks produced for it and the
    /// chunk size used.
    pub fn record_document(&mut self, chunk_count: u64, chunk_size: u64)
        ensures
            final(self).documents() == wrapping_add_u64(old(self).documents(), 1),
            final(self).chunks() == wrapping_add_u64(old(self).chunks(), chunk_count),
            final(self).last_size() == chunk_size,
    {
        self.documents_indexed = self.documents_indexed.wrapping_add(1);
        self.chunks_indexed = self.chunks_indexed.wrapping_add(chunk_count);
        self.last_chunk_size = chunk_size;
    }

    /// Returns a snapshot of the current counters.
    pub fn snapshot(&self) -> (s: MetricsSnapshot)
        ensures
            s == self.spec_snapshot(),
    {
        let documents = self.documents_indexed;
        let last = self.last_chunk_size;
        MetricsSnapshot {
            documents_indexed: documents,
            chunks_indexed: self.chunks_indexed,
            last_chunk_size: if documents == 0 || last == 0 {
                None
            } else {
                Some(last)
            },
        }
    }
}

/// After a document with a non-zero chunk size is recorded, the snapshot reports
/// that chunk size as the latest one (unless the document counter wrapped to zero).
pub proof fn lemma_record_then_snapshot(before: CodeMetrics, after: CodeMetrics, chunk_count: u64, chunk_size: u64)
    requires
        after.documents() == wrapping_add_u64(before.documents(), 1),
        after.chunks() == wrapping_add_u64(before.chunks(), chunk_count),
        after.last_size() == chunk_size,
        chunk_size > 0,
        before.documents() < u64::MAX,
    ensures
        after.spec_snapshot().last_chunk_size == Some(chunk_size),
        after.spec_snapshot().documents_indexed == before.spec_snapshot().documents_indexed + 1,
{
}

/// Whether `after` is what `record_document(r.0, r.1)` makes of `before`.
pub open spec fn records(before: CodeMetrics, after: CodeMetrics, r: (u64, u64)) -> bool {
    &&& after.documents() == wrapping_add_u64(before.documents(), 1)
    &&& after.chunks() == wrapping_add_u64(before.chunks(), r.0)
    &&& after.last_size() == r.1
}

/// The chunk counts of a sequence of recordings added up.
pub open spec fn total_chunks(rs: Seq<(u64, u64)>) -> nat
    decreases rs.len(),
{
    if rs.len() == 0 {
        0
    } else {
        total_chunks(rs.drop_last()) + rs.last().0 as nat
    }
}

/// Counters built by `new` followed by `record_document(c_1, s_1)`, ...,
/// `record_document(c_n, s_n)` report, when nothing wrapped, `n` documents, the
/// sum of the `c_i` as chunks, and `s_n` as the latest chunk size (none when
/// `n` is zero or `s_n` is zero).  Reading a snapshot takes the counters by
/// shared reference, so a second snapshot reports the same.
pub proof fn lemma_recordings_snapshot(states: Seq<CodeMetrics>, rs: Seq<(u64, u64)>)
    requires
        states.len() == rs.len() + 1,
        states[0].documents() == 0,
        states[0].chunks() == 0,
        states[0].last_size() == 0,
        forall|i: int| #![trigger rs[i]] 0 <= i < rs.len() ==> records(states[i], states[i + 1], rs[i]),
        rs.len() <= u64::MAX,
        total_chunks(rs) <= u64::MAX,
    ensures
        states.last().spec_snapshot() == (MetricsSnapshot {
            documents_indexed: rs.len() as u64,
            chunks_indexed: total_chunks(rs) as u64,
            last_chunk_size: if rs.len() == 0 || rs.last().1 == 0 {
                None
            } else {
                Some(rs.last().1)
            },
        }),
    decreases rs.len(),
{
    if rs.len() > 0 {
        let n = rs.len() - 1;
        let ps = states.drop_last();
        let prs = rs.drop_last();
        assert forall|i: int| #![trigger prs[i]] 0 <= i < prs.len() implies records(
            ps[i],
            ps[i + 1],
            prs[i],
        ) by {
            assert(prs[i] == rs[i]);
            assert(ps[i] == states[i] && ps[i + 1] == states[i + 1]);
        }
        lemma_total_chunks_monotone(rs);
        lemma_recordings_snapshot(ps, prs);
        assert(records(states[n], states[n + 1], rs[n]));
        assert(ps.last() == states[n]);
    }
}

/// Dropping the last recording does not raise the total.
proof fn lemma_total_chunks_monotone(rs: Seq<(u64, u64)>)
    requires
        rs.len() > 0,
    ensures
        total_chunks(rs.drop_last()) <= total_chunks(rs),
{
}

} // verus!
