//! Preparation of chunks for ingestion.
use crate::hashing::{chunk_hash, compute_chunk_hash};
use crate::text::{contains_string, is_blank, is_blank_str, views};
use vstd::prelude::*;

verus! {

/// Chunk text with its digest, ready for ingestion.
#[derive(Debug, Clone)]
pub struct PreparedChunk {
    /// Chunk text content.
    pub text: String,
    /// Stable digest used for deduplication.
    pub chunk_hash: String,
}

/// The hashes of a sequence of texts.
pub open spec fn hashes(texts: Seq<Seq<char>>) -> Seq<Seq<char>> {
    texts.map_values(|t: Seq<char>| chunk_hash(t))
}

/// The texts kept by deduplication and the number of duplicates skipped: blank
/// chunks are dropped, and a chunk whose hash was already kept is skipped.
pub open spec fn deduped(chunks: Seq<Seq<char>>) -> (Seq<Seq<char>>, nat)
    decreases chunks.len(),
{
    if chunks.len() == 0 {
        (Seq::empty(), 0)
    } else {
        let (kept, skipped) = deduped(chunks.drop_last());
        let t = chunks.last();
        if is_blank(t) {
            (kept, skipped)
        } else if hashes(kept).contains(chunk_hash(t)) {
            (kept, skipped + 1)
        } else {
            (kept.push(t), skipped)
        }
    }
}

/// Removes duplicate chunks within a document, keeping the first occurrence, and
/// counts the skipped duplicates.
pub fn dedupe_chunks(chunks: Vec<String>) -> (res: (Vec<PreparedChunk>, usize))
    ensures
        res.0@.map_values(|p: PreparedChunk| p.text@) == deduped(views(chunks@)).0,
        res.1 == deduped(views(chunks@)).1,
        forall|i: int| 0 <= i < res.0@.len() ==> #[trigger] res.0@[i].chunk_hash@ == chunk_hash(
            res.0@[i].text@,
        ),
{
    let ghost input = views(chunks@);
    let mut seen: Vec<String> = Vec::new();
    let mut prepared: Vec<PreparedChunk> = Vec::new();
    let mut skipped: usize = 0;
    let mut i: usize = 0;
    while i < chunks.len()
        invariant
            i <= chunks.len(),
            input == views(chunks@),
            prepared@.map_values(|p: PreparedChunk| p.text@) == deduped(input.take(i as int)).0,
            views(seen@) == hashes(deduped(input.take(i as int)).0),
            skipped == deduped(input.take(i as int)).1,
            skipped <= i,
            forall|j: int| 0 <= j < prepared@.len() ==> #[trigger] prepared@[j].chunk_hash@
                == chunk_hash(prepared@[j].text@),
        decreases chunks.len() - i,
    {
        let ghost prefix = input.take(i + 1);
        proof {
            assert(prefix.drop_last() =~= input.take(i as int));
            assert(prefix.last() == chunks@[i as int]@);
        }
        let text = chunks[i].clone();
        if !is_blank_str(text.as_str()) {
            let hash = compute_chunk_hash(text.as_str());
            if contains_string(&seen, hash.as_str()) {
                skipped = skipped + 1;
            } else {
                let ghost before_seen = seen@;
                let ghost before_prepared = prepared@;
                seen.push(hash.clone());
                prepared.push(PreparedChunk { text, chunk_hash: hash });
                proof {
                    let kept = deduped(input.take(i as int)).0;
                    assert(views(seen@) =~= views(before_seen).push(chunk_hash(prefix.last())));
                    assert(hashes(kept.push(prefix.last())) =~= hashes(kept).push(
                        chunk_hash(prefix.last()),
                    ));
                    assert(prepared@.map_values(|p: PreparedChunk| p.text@) =~= before_prepared.map_values(
                        |p: PreparedChunk| p.text@,
                    ).push(prefix.last()));
                }
            }
        }
        i = i + 1;
    }
    assert(input.take(chunks.len() as int) =~= input);
    (prepared, skipped)
}

/// Number of non-blank texts in a sequence.
pub open spec fn non_blank_count(chunks: Seq<Seq<char>>) -> nat
    decreases chunks.len(),
{
    if chunks.len() == 0 {
        0
    } else {
        non_blank_count(chunks.drop_last()) + if is_blank(chunks.last()) {
            0nat
        } else {
            1nat
        }
    }
}

/// Every non-blank chunk is either kept or counted as skipped, and the kept
/// chunks have pairwise distinct hashes.
pub proof fn lemma_dedupe_accounting(chunks: Seq<Seq<char>>)
    ensures
        deduped(chunks).0.len() + deduped(chunks).1 == non_blank_count(chunks),
        forall|i: int, j: int|
            0 <= i < j < deduped(chunks).0.len() ==> chunk_hash(deduped(chunks).0[i]) != chunk_hash(
                deduped(chunks).0[j],
            ),
    decreases chunks.len(),
{
    if chunks.len() > 0 {
        lemma_dedupe_accounting(chunks.drop_last());
        let kept = deduped(chunks.drop_last()).0;
        let t = chunks.last();
        if !is_blank(t) && !hashes(kept).contains(chunk_hash(t)) {
            let after = kept.push(t);
            assert forall|i: int, j: int| 0 <= i < j < after.len() implies chunk_hash(after[i])
                != chunk_hash(after[j]) by {
                if j == after.len() - 1 && chunk_hash(after[i]) == chunk_hash(after[j]) {
                    assert(hashes(kept)[i] == chunk_hash(kept[i]));
                    assert(hashes(kept).contains(chunk_hash(t)));
                }
            }
        }
    }
}

} // verus!
