//! Summarisation helpers: episodic memories, their chronological order, the
//! summary idempotency key, the extractive summary and the abstractive prompt.
use crate::strset::{lemma_lt_irreflexive, lemma_lt_total, lemma_lt_transitive, seq_lt, str_lt};
use crate::hashing::{hex_encode, hex_string, sha256, sha256_digest};
use crate::qdrant::SearchTimeRange;
use crate::text::{
    append_str, chars_of, count_words, count_words_chars, is_white_char, decimal, usize_decimal, is_white, word_count, word_starts_at, is_blank, opt_view, owned, push_char, string_of_range, trim, trim_str,
    views,
};
use vstd::utf8::encode_utf8;
use vstd::prelude::*;
use vstd::seq_lib::to_multiset_contains;
use vstd::seq_lib::to_multiset_insert;
use vstd::seq_lib::to_multiset_remove;

verus! {

/// The instant an RFC 3339 timestamp denotes, in nanoseconds since the Unix
/// epoch, as `time` parses it; `None` when the text is not RFC 3339.
pub uninterp spec fn rfc3339_instant(text: Seq<char>) -> Option<int>;

/// `time::OffsetDateTime::parse(text, &Rfc3339)` followed by
/// `unix_timestamp_nanos`: the parsed instant as nanoseconds since the epoch, a
/// function of the text alone (the offset is part of the text).  Instants
/// compare as the parsed date-times do.
#[verifier::external_body]
pub(crate) fn parse_rfc3339(text: &str) -> (res: Option<i128>)
    ensures
        match res {
            Some(n) => rfc3339_instant(text@) == Some(n as int),
            None => rfc3339_instant(text@) is None,
        },
{
    time::OffsetDateTime::parse(text, &time::format_description::well_known::Rfc3339).ok().map(
        |dt| dt.unix_timestamp_nanos(),
    )
}

/// An episodic memory loaded for summarisation.
#[derive(Debug, Clone)]
pub struct EpisodicMemory {
    /// Point identifier.
    pub memory_id: String,
    /// Stored text.
    pub text: String,
    /// Stored timestamp text.
    pub timestamp: Option<String>,
    /// The instant of the timestamp, when it is RFC 3339.
    pub parsed_timestamp: Option<i128>,
}

/// The parsed instant of an optional timestamp.
pub open spec fn instant_of(timestamp: Option<Seq<char>>) -> Option<int> {
    match timestamp {
        Some(t) => rfc3339_instant(t),
        None => None,
    }
}

impl EpisodicMemory {
    /// Creates a memory, parsing its timestamp.
    pub fn new(memory_id: String, text: String, timestamp: Option<String>) -> (m: Self)
        ensures
            m.memory_id@ == memory_id@,
            m.text@ == text@,
            opt_view(m.timestamp) == opt_view(timestamp),
            match m.parsed_timestamp {
                Some(n) => instant_of(opt_view(timestamp)) == Some(n as int),
                None => instant_of(opt_view(timestamp)) is None,
            },
    {
        let parsed_timestamp = match &timestamp {
            Some(value) => parse_rfc3339(value.as_str()),
            None => None,
        };
        EpisodicMemory { memory_id, text, timestamp, parsed_timestamp }
    }
}

/// Chronological order of memories: dated ones by instant, before undated ones,
/// which are ordered by identifier.
pub open spec fn mem_le(a: EpisodicMemory, b: EpisodicMemory) -> bool {
    match (a.parsed_timestamp, b.parsed_timestamp) {
        (Some(x), Some(y)) => x <= y,
        (Some(_), None) => true,
        (None, Some(_)) => false,
        (None, None) => !seq_lt(b.memory_id@, a.memory_id@),
    }
}

/// Whether memories are in chronological order.
pub open spec fn chronological(s: Seq<EpisodicMemory>) -> bool {
    forall|i: int, j: int| 0 <= i < j < s.len() ==> mem_le(#[trigger] s[i], #[trigger] s[j])
}

/// The chronological order is total.
pub proof fn lemma_mem_le_total(a: EpisodicMemory, b: EpisodicMemory)
    ensures
        mem_le(a, b) || mem_le(b, a),
{
    lemma_lt_total(a.memory_id@, b.memory_id@);
    lemma_lt_irreflexive(a.memory_id@);
    if seq_lt(a.memory_id@, b.memory_id@) && seq_lt(b.memory_id@, a.memory_id@) {
        lemma_lt_transitive(a.memory_id@, b.memory_id@, a.memory_id@);
    }
}

/// The chronological order is transitive.
pub proof fn lemma_mem_le_transitive(a: EpisodicMemory, b: EpisodicMemory, c: EpisodicMemory)
    requires
        mem_le(a, b),
        mem_le(b, c),
    ensures
        mem_le(a, c),
{
    if a.parsed_timestamp is None && b.parsed_timestamp is None && c.parsed_timestamp is None {
        let (x, y, z) = (a.memory_id@, b.memory_id@, c.memory_id@);
        if seq_lt(z, x) {
            lemma_lt_total(y, x);
            if seq_lt(x, y) {
                lemma_lt_transitive(z, x, y);
            }
        }
    }
}

/// Whether `a` comes strictly before `b`.
fn before(a: &EpisodicMemory, b: &EpisodicMemory) -> (lt: bool)
    ensures
        lt == !mem_le(*b, *a),
{
    match (a.parsed_timestamp, b.parsed_timestamp) {
        (Some(x), Some(y)) => x < y,
        (Some(_), None) => true,
        (None, Some(_)) => false,
        (None, None) => str_lt(a.memory_id.as_str(), b.memory_id.as_str()),
    }
}

/// Inserts `x` into a chronological sequence after every memory that is not
/// later than it.
pub open spec fn insert_sorted(s: Seq<EpisodicMemory>, x: EpisodicMemory) -> Seq<EpisodicMemory>
    decreases s.len(),
{
    if s.len() == 0 {
        seq![x]
    } else if mem_le(s.last(), x) {
        s.push(x)
    } else {
        insert_sorted(s.drop_last(), x).push(s.last())
    }
}

/// Stable chronological sort: memories are inserted one by one in input order,
/// so memories that compare equal keep their input order.
pub open spec fn chrono_sort(s: Seq<EpisodicMemory>) -> Seq<EpisodicMemory>
    decreases s.len(),
{
    if s.len() == 0 {
        Seq::empty()
    } else {
        insert_sorted(chrono_sort(s.drop_last()), s.last())
    }
}

/// Inserting at the first position whose memory is strictly later than `x`
/// is [`insert_sorted`].
proof fn lemma_insert_sorted_at(s: Seq<EpisodicMemory>, x: EpisodicMemory, p: int)
    requires
        chronological(s),
        0 <= p <= s.len(),
        forall|k: int| 0 <= k < p ==> mem_le(#[trigger] s[k], x),
        p < s.len() ==> !mem_le(s[p], x),
    ensures
        insert_sorted(s, x) == s.insert(p, x),
    decreases s.len(),
{
    if s.len() == 0 {
        assert(s.insert(p, x) =~= seq![x]);
    } else if mem_le(s.last(), x) {
        if p < s.len() {
            if p < s.len() - 1 {
                lemma_mem_le_transitive(s[p], s.last(), x);
            }
        }
        assert(s.insert(p, x) =~= s.push(x));
    } else {
        let t = s.drop_last();
        assert(p < s.len());
        assert forall|i: int, j: int| 0 <= i < j < t.len() implies mem_le(
            #[trigger] t[i],
            #[trigger] t[j],
        ) by {
            assert(t[i] == s[i] && t[j] == s[j]);
        }
        assert forall|k: int| 0 <= k < p implies mem_le(#[trigger] t[k], x) by {
            assert(t[k] == s[k]);
        }
        if p < t.len() {
            assert(t[p] == s[p]);
        }
        lemma_insert_sorted_at(t, x, p);
        assert(t.insert(p, x).push(s.last()) =~= s.insert(p, x));
    }
}

/// Sorts memories chronologically (undated ones last, by identifier), keeping
/// memories that compare equal in their input order; the result is a
/// reordering of the input.
pub fn sort_memories(memories: &mut Vec<EpisodicMemory>)
    ensures
        final(memories)@ == chrono_sort(old(memories)@),
        chronological(final(memories)@),
        final(memories)@.to_multiset() == old(memories)@.to_multiset(),
{
    broadcast use vstd::seq_lib::group_to_multiset_ensures, vstd::multiset::group_multiset_axioms;

    let mut rest: Vec<EpisodicMemory> = Vec::new();
    std::mem::swap(memories, &mut rest);
    let ghost initial = rest@;
    let ghost mut done: int = 0;
    let mut out: Vec<EpisodicMemory> = Vec::new();
    assert(out@.to_multiset() =~= vstd::multiset::Multiset::empty());
    assert(out@.to_multiset().add(rest@.to_multiset()) =~= initial.to_multiset());
    assert(initial.skip(0) =~= initial);
    assert(initial.take(0) =~= Seq::<EpisodicMemory>::empty());
    while rest.len() > 0
        invariant
            chronological(out@),
            out@.to_multiset().add(rest@.to_multiset()) == initial.to_multiset(),
            0 <= done <= initial.len(),
            rest@ == initial.skip(done),
            out@ == chrono_sort(initial.take(done)),
        decreases rest.len(),
    {
        let ghost rest_before = rest@;
        let x = rest.remove(0);
        proof {
            to_multiset_remove(rest_before, 0);
            assert(rest_before[0] == x);
            assert(rest_before.contains(x));
            to_multiset_contains(rest_before, x);
        }
        let mut p: usize = 0;
        while p < out.len() && !before(&x, &out[p])
            invariant
                p <= out.len(),
                chronological(out@),
                forall|k: int| 0 <= k < p ==> mem_le(#[trigger] out@[k], x),
            decreases out.len() - p,
        {
            p = p + 1;
        }
        let ghost out_before = out@;
        proof {
            if p < out.len() {
                lemma_mem_le_total(x, out@[p as int]);
                assert forall|k: int| p <= k < out@.len() implies mem_le(x, #[trigger] out@[k]) by {
                    if k > p {
                        lemma_mem_le_transitive(x, out@[p as int], out@[k]);
                    }
                }
            }
            to_multiset_insert(out_before, p as int, x);
        }
        out.insert(p, x);
        proof {
            let s = out@;
            assert forall|i: int, j: int| 0 <= i < j < s.len() implies mem_le(
                #[trigger] s[i],
                #[trigger] s[j],
            ) by {
                if j == p {
                    assert(s[i] == out_before[i]);
                } else if i == p {
                    assert(s[j] == out_before[j - 1]);
                } else if i < p && j > p {
                    assert(s[i] == out_before[i]);
                    assert(s[j] == out_before[j - 1]);
                    lemma_mem_le_transitive(s[i], x, s[j]);
                } else if j < p {
                    assert(s[i] == out_before[i]);
                    assert(s[j] == out_before[j]);
                } else {
                    assert(s[i] == out_before[i - 1]);
                    assert(s[j] == out_before[j - 1]);
                }
            }
            assert(rest@ == rest_before.remove(0));
            assert(out@ == out_before.insert(p as int, x));
            lemma_insert_sorted_at(out_before, x, p as int);
            assert(x == initial[done]);
            assert(initial.take(done + 1).drop_last() =~= initial.take(done));
            assert(initial.take(done + 1).last() == x);
            assert(rest@ =~= initial.skip(done + 1));
            done = done + 1;
            assert(out@.to_multiset() == out_before.to_multiset().insert(x));
            assert(rest@.to_multiset() == rest_before.to_multiset().remove(x));
            assert(out@.to_multiset().add(rest@.to_multiset()) =~= initial.to_multiset());
        }
    }
    proof {
        assert(rest@.to_multiset() =~= vstd::multiset::Multiset::empty());
        assert(out@.to_multiset().add(rest@.to_multiset()) =~= out@.to_multiset());
        assert(done == initial.len());
        assert(initial.take(done) =~= initial);
    }
    *memories = out;
}

/// The UTF-8 bytes of strings written one after the other.
pub open spec fn joined_bytes(items: Seq<Seq<char>>) -> Seq<u8>
    decreases items.len(),
{
    if items.len() == 0 {
        Seq::empty()
    } else {
        joined_bytes(items.drop_last()) + encode_utf8(items.last())
    }
}

/// An optional text, empty when absent.
pub open spec fn or_empty(text: Option<Seq<char>>) -> Seq<char> {
    match text {
        Some(t) => t,
        None => Seq::empty(),
    }
}

/// The idempotency key of a summary: the hex SHA-256 of the project identifier,
/// the range start, the range end (empty when absent) and the source memory
/// identifiers, written one after the other.
pub open spec fn summary_key(
    project_id: Seq<char>,
    start: Option<Seq<char>>,
    end: Option<Seq<char>>,
    ids: Seq<Seq<char>>,
) -> Seq<char> {
    hex_string(
        sha256(
            encode_utf8(project_id) + encode_utf8(or_empty(start)) + encode_utf8(or_empty(end))
                + joined_bytes(ids),
        ),
    )
}

/// The UTF-8 bytes of each identifier.
pub open spec fn id_bytes(ids: Seq<Seq<char>>) -> Seq<Seq<u8>> {
    ids.map_values(|id: Seq<char>| encode_utf8(id))
}

/// Writing strings one after the other gives their UTF-8 encodings concatenated.
proof fn lemma_joined_bytes_flatten(ids: Seq<Seq<char>>)
    ensures
        joined_bytes(ids) == id_bytes(ids).flatten(),
    decreases ids.len(),
{
    id_bytes(ids).lemma_flatten_and_flatten_alt_are_equivalent();
    if ids.len() > 0 {
        lemma_joined_bytes_flatten(ids.drop_last());
        id_bytes(ids.drop_last()).lemma_flatten_and_flatten_alt_are_equivalent();
        assert(id_bytes(ids).drop_last() =~= id_bytes(ids.drop_last()));
    } else {
        assert(id_bytes(ids) =~= Seq::<Seq<u8>>::empty());
    }
}

/// The summary key is the lowercase hex SHA-256 of the project identifier, the
/// range start, the range end (each absent one contributing nothing) and every
/// source memory identifier in order, all in UTF-8; so adding a memory
/// identifier appends its bytes to what is hashed.
pub proof fn lemma_summary_key_hashes_every_id(
    project_id: Seq<char>,
    start: Option<Seq<char>>,
    end: Option<Seq<char>>,
    ids: Seq<Seq<char>>,
    extra: Seq<char>,
)
    ensures
        ({
            let scope = encode_utf8(project_id) + match start {
                Some(t) => encode_utf8(t),
                None => Seq::empty(),
            } + match end {
                Some(t) => encode_utf8(t),
                None => Seq::empty(),
            };
            &&& summary_key(project_id, start, end, ids) == hex_string(
                sha256(scope + id_bytes(ids).flatten()),
            )
            &&& summary_key(project_id, start, end, ids.push(extra)) == hex_string(
                sha256(scope + id_bytes(ids).flatten() + encode_utf8(extra)),
            )
        }),
{
    lemma_joined_bytes_flatten(ids);
    lemma_joined_bytes_flatten(ids.push(extra));
    assert(ids.push(extra).drop_last() =~= ids);
    assert(encode_utf8(Seq::<char>::empty()) =~= Seq::<u8>::empty());
    let scope = encode_utf8(project_id) + match start {
        Some(t) => encode_utf8(t),
        None => Seq::empty(),
    } + match end {
        Some(t) => encode_utf8(t),
        None => Seq::empty(),
    };
    assert(encode_utf8(project_id) + encode_utf8(or_empty(start)) + encode_utf8(or_empty(end))
        =~= scope);
    assert(scope + joined_bytes(ids.push(extra)) =~= scope + joined_bytes(ids) + encode_utf8(extra));
}

fn append_bytes(out: &mut Vec<u8>, s: &str)
    ensures
        final(out)@ == old(out)@ + encode_utf8(s@),
{
    let b = s.as_bytes();
    let mut i: usize = 0;
    while i < b.len()
        invariant
            i <= b@.len(),
            b@ == encode_utf8(s@),
            out@ == old(out)@ + b@.take(i as int),
        decreases b.len() - i,
    {
        out.push(b[i]);
        assert(old(out)@ + b@.take(i + 1) =~= (old(out)@ + b@.take(i as int)).push(b@[i as int]));
        i = i + 1;
    }
    assert(b@.take(b@.len() as int) =~= b@);
}

/// Computes the deterministic idempotency key of a summary.
pub fn compute_summary_key(
    project_id: &str,
    time_range: &SearchTimeRange,
    source_memory_ids: &Vec<String>,
) -> (res: String)
    ensures
        res@ == summary_key(
            project_id@,
            opt_view(time_range.start),
            opt_view(time_range.end),
            views(source_memory_ids@),
        ),
{
    let mut bytes: Vec<u8> = Vec::new();
    append_bytes(&mut bytes, project_id);
    match &time_range.start {
        Some(s) => append_bytes(&mut bytes, s.as_str()),
        None => {
            assert(encode_utf8(Seq::<char>::empty()) =~= Seq::<u8>::empty());
            assert(bytes@ + Seq::<u8>::empty() =~= bytes@);
        },
    }
    match &time_range.end {
        Some(s) => append_bytes(&mut bytes, s.as_str()),
        None => {
            assert(encode_utf8(Seq::<char>::empty()) =~= Seq::<u8>::empty());
            assert(bytes@ + Seq::<u8>::empty() =~= bytes@);
        },
    }
    let ghost head = bytes@;
    let mut i: usize = 0;
    while i < source_memory_ids.len()
        invariant
            i <= source_memory_ids.len(),
            bytes@ == head + joined_bytes(views(source_memory_ids@).take(i as int)),
        decreases source_memory_ids.len() - i,
    {
        let ghost pre = views(source_memory_ids@).take(i + 1);
        assert(pre.drop_last() =~= views(source_memory_ids@).take(i as int));
        append_bytes(&mut bytes, source_memory_ids[i].as_str());
        i = i + 1;
    }
    assert(views(source_memory_ids@).take(source_memory_ids.len() as int) =~= views(
        source_memory_ids@,
    ));
    let digest = sha256_digest(bytes.as_slice());
    hex_encode(digest.as_slice())
}

/// The tag marking a semantic summary with its idempotency key.
pub open spec fn summary_tag(key: Seq<char>) -> Seq<char> {
    "summary:"@ + key
}

/// Builds the idempotency tag `summary:<key>`.
pub fn idempotency_tag(key: &str) -> (res: String)
    ensures
        res@ == summary_tag(key@),
{
    let mut res = owned("summary:");
    append_str(&mut res, key);
    res
}

/// Whether a character ends a sentence.
pub open spec fn is_sentence_end(c: char) -> bool {
    c == '.' || c == '!' || c == '?'
}

/// The index of the first sentence end at or after `i`, or the length.
pub open spec fn next_sentence_end(t: Seq<char>, i: int) -> int
    decreases t.len() - i,
{
    if i >= t.len() {
        t.len() as int
    } else if is_sentence_end(t[i]) {
        i
    } else {
        next_sentence_end(t, i + 1)
    }
}

/// The first non-blank trimmed segment between sentence ends, starting at `i`.
pub open spec fn sentence_from(t: Seq<char>, i: int) -> Option<Seq<char>>
    decreases t.len() - i,
{
    if i < 0 || i > t.len() {
        None
    } else {
        let j = next_sentence_end(t, i);
        proof {
            lemma_next_sentence_end(t, i);
        }
        let seg = trim(t.subrange(i, j));
        if seg.len() > 0 {
            Some(seg)
        } else if j >= t.len() {
            None
        } else {
            sentence_from(t, j + 1)
        }
    }
}

/// The first sentence of a text: the first non-blank trimmed segment between
/// `.`, `!` and `?`, else the whole text.
pub open spec fn first_sentence_of(t: Seq<char>) -> Seq<char> {
    match sentence_from(t, 0) {
        Some(s) => s,
        None => t,
    }
}

/// The first sentence end at or after `i` is the first one there.
pub proof fn lemma_next_sentence_end(t: Seq<char>, i: int)
    requires
        0 <= i <= t.len(),
    ensures
        i <= next_sentence_end(t, i) <= t.len(),
        next_sentence_end(t, i) < t.len() ==> is_sentence_end(t[next_sentence_end(t, i)]),
        forall|k: int| i <= k < next_sentence_end(t, i) ==> !is_sentence_end(#[trigger] t[k]),
    decreases t.len() - i,
{
    if i < t.len() && !is_sentence_end(t[i]) {
        lemma_next_sentence_end(t, i + 1);
    }
}

/// Extracts the first sentence of a text.
pub fn first_sentence(text: &str) -> (res: String)
    ensures
        res@ == first_sentence_of(text@),
{
    let v = chars_of(text);
    let mut i: usize = 0;
    loop
        invariant
            i <= v.len(),
            v@ == text@,
            sentence_from(v@, 0) == sentence_from(v@, i as int),
        decreases v.len() - i,
    {
        let mut j = i;
        while j < v.len() && !(v[j] == '.' || v[j] == '!' || v[j] == '?')
            invariant
                i <= j <= v.len(),
                next_sentence_end(v@, i as int) == next_sentence_end(v@, j as int),
            decreases v.len() - j,
        {
            j = j + 1;
        }
        let segment = string_of_range(&v, i, j);
        let trimmed = trim_str(segment.as_str());
        if trimmed.as_str().unicode_len() > 0 {
            return trimmed;
        }
        if j >= v.len() {
            return owned(text);
        }
        i = j + 1;
    }
}

/// A text cut to fit `max_chars`: unchanged when its UTF-8 length is within the
/// limit, else its first `max_chars - 1` characters followed by `…`.
pub open spec fn truncated(t: Seq<char>, max_chars: nat) -> Seq<char> {
    if encode_utf8(t).len() <= max_chars {
        t
    } else {
        let k: int = if t.len() < max_chars - 1 {
            t.len() as int
        } else {
            max_chars - 1
        };
        t.take(k).push('…')
    }
}

/// Cuts a text to `max_chars`, marking the cut with an ellipsis.
pub fn truncate_sentence(text: &str, max_chars: usize) -> (res: String)
    requires
        max_chars > 0 || encode_utf8(text@).len() == 0,
    ensures
        res@ == truncated(text@, max_chars as nat),
{
    let bytes = text.as_bytes();
    if bytes.len() <= max_chars {
        return owned(text);
    }
    let v = chars_of(text);
    let k = if v.len() < max_chars - 1 {
        v.len()
    } else {
        max_chars - 1
    };
    let mut res = string_of_range(&v, 0, k);
    push_char(&mut res, '…');
    assert(v@.subrange(0, k as int) =~= v@.take(k as int));
    res
}

/// The bullet a memory contributes to an extractive summary: `- <timestamp>:
/// <sentence>` (or `- <sentence>` without a timestamp), where the sentence is
/// the first sentence of the trimmed text cut to 180 characters.  Memories with
/// a blank text contribute none.
pub open spec fn bullet_of(m: EpisodicMemory) -> Option<Seq<char>> {
    let t = trim(m.text@);
    if t.len() == 0 {
        None
    } else {
        let s = truncated(first_sentence_of(t), 180);
        if s.len() == 0 {
            None
        } else {
            let b = match opt_view(m.timestamp) {
                Some(ts) => "- "@ + ts + ": "@ + s,
                None => "- "@ + s,
            };
            if word_count(b) == 0 {
                None
            } else {
                Some(b)
            }
        }
    }
}

/// The bullets of memories, in order.
pub open spec fn candidate_bullets(ms: Seq<EpisodicMemory>) -> Seq<Seq<char>>
    decreases ms.len(),
{
    if ms.len() == 0 {
        Seq::empty()
    } else {
        let c = candidate_bullets(ms.drop_last());
        match bullet_of(ms.last()) {
            Some(b) => c.push(b),
            None => c,
        }
    }
}

/// Total number of words of a sequence of texts.
pub open spec fn total_words(bs: Seq<Seq<char>>) -> nat
    decreases bs.len(),
{
    if bs.len() == 0 {
        0
    } else {
        total_words(bs.drop_last()) + word_count(bs.last())
    }
}

/// How many leading bullets fit the word budget: each one is taken while the
/// running total stays within `max_words`.
pub open spec fn bullets_taken(bs: Seq<Seq<char>>, max_words: nat) -> nat
    decreases bs.len(),
{
    if bs.len() == 0 {
        0
    } else {
        let k = bullets_taken(bs.drop_last(), max_words);
        if k == bs.len() - 1 && total_words(bs) <= max_words {
            bs.len()
        } else {
            k
        }
    }
}

/// Texts joined with newlines.
pub open spec fn lines(bs: Seq<Seq<char>>) -> Seq<char>
    decreases bs.len(),
{
    if bs.len() == 0 {
        Seq::empty()
    } else if bs.len() == 1 {
        bs[0]
    } else {
        lines(bs.drop_last()) + seq!['\n'] + bs.last()
    }
}

/// The summary used when no bullet exists: the first non-blank trimmed text cut
/// to 200 characters, else a fixed notice.
pub open spec fn fallback_summary(ms: Seq<EpisodicMemory>) -> Seq<char>
    decreases ms.len(),
{
    if ms.len() == 0 {
        "No episodic memories available."@
    } else if trim(ms[0].text@).len() > 0 {
        truncated(trim(ms[0].text@), 200)
    } else {
        fallback_summary(ms.drop_first())
    }
}

/// The longest prefix of `s` that holds at most `n` words and does not end in
/// whitespace.
pub open spec fn words_cut(s: Seq<char>, n: nat) -> Seq<char>
    decreases s.len(),
{
    if s.len() == 0 || (word_count(s) <= n && !is_white(s.last())) {
        s
    } else {
        words_cut(s.drop_last(), n)
    }
}

/// The extractive summary: the bullets that fit the budget, one per line; when
/// not even the first bullet fits, its first `max_words` words; the fallback
/// text when there is no bullet.
pub open spec fn extractive_summary(ms: Seq<EpisodicMemory>, max_words: nat) -> Seq<char> {
    let c = candidate_bullets(ms);
    let k = bullets_taken(c, max_words);
    if k > 0 {
        lines(c.take(k as int))
    } else if c.len() > 0 {
        words_cut(c[0], max_words)
    } else {
        fallback_summary(ms)
    }
}

/// Cuts a text to its first `max_words` words, dropping trailing whitespace.
fn cut_to_words(s: &str, max_words: usize) -> (res: String)
    ensures
        res@ == words_cut(s@, max_words as nat),
{
    let v = chars_of(s);
    let mut n = count_words_chars(v.as_slice());
    let mut len: usize = v.len();
    assert(v@.take(len as int) =~= v@);
    while len > 0 && (n > max_words || is_white_char(v[len - 1]))
        invariant
            len <= v.len(),
            v@ == s@,
            n == word_count(v@.take(len as int)),
            words_cut(v@.take(len as int), max_words as nat) == words_cut(s@, max_words as nat),
        decreases len,
    {
        let ghost t = v@.take(len as int);
        assert(t.drop_last() =~= v@.take(len - 1));
        assert(t.last() == v@[len - 1]);
        let starts = !is_white_char(v[len - 1]) && (len == 1 || is_white_char(v[len - 2]));
        proof {
            if len > 1 {
                assert(t[len - 2] == v@[len - 2]);
            }
            assert(starts == word_starts_at(t, len - 1));
        }
        if starts {
            n = n - 1;
        }
        len = len - 1;
    }
    string_of_range(v.as_slice(), 0, len)
}

fn memory_bullet(m: &EpisodicMemory) -> (res: Option<String>)
    ensures
        match res {
            Some(b) => bullet_of(*m) == Some(b@),
            None => bullet_of(*m) is None,
        },
{
    let t = trim_str(m.text.as_str());
    if t.as_str().unicode_len() == 0 {
        return None;
    }
    let first = first_sentence(t.as_str());
    let sentence = truncate_sentence(first.as_str(), 180);
    if sentence.as_str().unicode_len() == 0 {
        return None;
    }
    let mut bullet = owned("- ");
    match &m.timestamp {
        Some(ts) => {
            append_str(&mut bullet, ts.as_str());
            append_str(&mut bullet, ": ");
        },
        None => {},
    }
    append_str(&mut bullet, sentence.as_str());
    if count_words(bullet.as_str()) == 0 {
        None
    } else {
        Some(bullet)
    }
}

/// Builds a deterministic extractive summary bounded by a word budget.
pub fn build_extractive_summary(memories: &Vec<EpisodicMemory>, max_words: usize) -> (res: String)
    ensures
        res@ == extractive_summary(memories@, max_words as nat),
{
    let mut candidates: Vec<String> = Vec::new();
    let mut i: usize = 0;
    while i < memories.len()
        invariant
            i <= memories.len(),
            views(candidates@) == candidate_bullets(memories@.take(i as int)),
        decreases memories.len() - i,
    {
        let ghost pre = memories@.take(i + 1);
        assert(pre.drop_last() =~= memories@.take(i as int));
        match memory_bullet(&memories[i]) {
            Some(b) => {
                let ghost before = candidates@;
                candidates.push(b);
                assert(views(candidates@) =~= views(before).push(candidates@.last()@));
            },
            None => {},
        }
        i = i + 1;
    }
    assert(memories@.take(memories.len() as int) =~= memories@);
    let ghost c = views(candidates@);
    let mut out = String::new();
    let mut k: usize = 0;
    let mut used: usize = 0;
    let mut taking = true;
    let mut j: usize = 0;
    while j < candidates.len()
        invariant
            j <= candidates.len(),
            c == views(candidates@),
            k <= j,
            k == bullets_taken(c.take(j as int), max_words as nat),
            taking == (k == j),
            used == total_words(c.take(k as int)),
            used <= max_words,
            out@ == lines(c.take(k as int)),
        decreases candidates.len() - j,
    {
        let ghost pre = c.take(j + 1);
        assert(pre.drop_last() =~= c.take(j as int));
        let bw = count_words(candidates[j].as_str());
        if taking && bw <= max_words - used {
            proof {
                assert(c.take(k as int) =~= c.take(j as int));
                assert(c.take(k + 1) =~= c.take(k as int).push(c[k as int]));
                assert(c.take(k + 1).drop_last() =~= c.take(k as int));
            }
            if k > 0 {
                push_char(&mut out, '\n');
            }
            append_str(&mut out, candidates[j].as_str());
            proof {
                if k > 0 {
                    assert(out@ =~= lines(c.take(k as int)) + seq!['\n'] + c[k as int]);
                } else {
                    assert(out@ =~= c[0]);
                }
            }
            used = used + bw;
            k = k + 1;
        } else {
            proof {
                if taking {
                    assert(c.take(k as int) =~= c.take(j as int));
                }
            }
            taking = false;
        }
        j = j + 1;
    }
    assert(c.take(candidates.len() as int) =~= c);
    if k > 0 {
        return out;
    }
    if candidates.len() > 0 {
        return cut_to_words(candidates[0].as_str(), max_words);
    }
    assert(extractive_summary(memories@, max_words as nat) == fallback_summary(memories@));
    let mut m: usize = 0;
    while m < memories.len()
        invariant
            m <= memories.len(),
            extractive_summary(memories@, max_words as nat) == fallback_summary(memories@),
            fallback_summary(memories@) == fallback_summary(memories@.skip(m as int)),
        decreases memories.len() - m,
    {
        let ghost rest = memories@.skip(m as int);
        assert(rest[0] == memories@[m as int]);
        assert(rest.drop_first() =~= memories@.skip(m + 1));
        let t = trim_str(memories[m].text.as_str());
        if t.as_str().unicode_len() > 0 {
            return truncate_sentence(t.as_str(), 200);
        }
        m = m + 1;
    }
    assert(memories@.skip(m as int).len() == 0);
    owned("No episodic memories available.")
}

/// Words do not run across a whitespace boundary: after an empty text or one
/// ending in whitespace, the words of a suffix add up.
pub proof fn lemma_word_count_concat(a: Seq<char>, b: Seq<char>)
    requires
        a.len() == 0 || is_white(a.last()),
    ensures
        word_count(a + b) == word_count(a) + word_count(b),
    decreases b.len(),
{
    if b.len() == 0 {
        assert(a + b =~= a);
    } else {
        lemma_word_count_concat(a, b.drop_last());
        let ab = a + b;
        assert(ab.drop_last() =~= a + b.drop_last());
        let n = ab.len() - 1;
        assert(ab[n] == b.last());
        if b.len() > 1 {
            assert(ab[n - 1] == b[b.len() - 2]);
        } else if a.len() > 0 {
            assert(ab[n - 1] == a.last());
        }
        assert(word_starts_at(ab, n) == word_starts_at(b, b.len() - 1));
    }
}

/// The words of newline-joined texts are the words of the texts.
pub proof fn lemma_lines_word_count(bs: Seq<Seq<char>>)
    ensures
        word_count(lines(bs)) == total_words(bs),
    decreases bs.len(),
{
    if bs.len() == 1 {
        assert(bs.drop_last().len() == 0);
        assert(bs.last() == bs[0]);
        assert(total_words(bs.drop_last()) == 0);
    } else if bs.len() > 1 {
        lemma_lines_word_count(bs.drop_last());
        let x = lines(bs.drop_last());
        let xn = x + seq!['\n'];
        assert(xn.drop_last() =~= x);
        assert(is_white(xn.last()));
        assert(!word_starts_at(xn, xn.len() - 1));
        lemma_word_count_concat(xn, bs.last());
    }
}

/// The bullets taken are a prefix whose words stay within the budget.
pub proof fn lemma_bullets_taken(bs: Seq<Seq<char>>, max_words: nat)
    ensures
        bullets_taken(bs, max_words) <= bs.len(),
        total_words(bs.take(bullets_taken(bs, max_words) as int)) <= max_words,
    decreases bs.len(),
{
    if bs.len() > 0 {
        let prev = bs.drop_last();
        lemma_bullets_taken(prev, max_words);
        let k = bullets_taken(bs, max_words);
        if k == bs.len() {
            assert(bs.take(k as int) =~= bs);
        } else {
            assert(bs.take(k as int) =~= prev.take(k as int));
        }
    } else {
        assert(bs.take(0).len() == 0);
    }
}

/// Cutting to `n` words leaves at most `n` words.
pub proof fn lemma_words_cut(s: Seq<char>, n: nat)
    ensures
        word_count(words_cut(s, n)) <= n,
    decreases s.len(),
{
    if s.len() > 0 && !(word_count(s) <= n && !is_white(s.last())) {
        lemma_words_cut(s.drop_last(), n);
    }
}

/// A segment found by [`sentence_from`] is never empty.
proof fn lemma_sentence_from_nonempty(t: Seq<char>, i: int)
    ensures
        sentence_from(t, i) matches Some(x) ==> x.len() > 0,
    decreases t.len() - i,
{
    if 0 <= i <= t.len() {
        let j = next_sentence_end(t, i);
        lemma_next_sentence_end(t, i);
        if trim(t.subrange(i, j)).len() == 0 && j < t.len() {
            lemma_sentence_from_nonempty(t, j + 1);
        }
    }
}

/// A text that starts with a non-whitespace character holds a word.
proof fn lemma_word_count_positive(s: Seq<char>)
    requires
        s.len() > 0,
        !is_white(s[0]),
    ensures
        word_count(s) >= 1,
    decreases s.len(),
{
    if s.len() > 1 {
        let d = s.drop_last();
        assert(d[0] == s[0]);
        lemma_word_count_positive(d);
    } else {
        assert(word_starts_at(s, 0));
    }
}

/// A memory with non-blank text gives a bullet.
pub proof fn lemma_bullet_of_nonblank(m: EpisodicMemory)
    requires
        trim(m.text@).len() > 0,
    ensures
        bullet_of(m) is Some,
{
    let t = trim(m.text@);
    lemma_sentence_from_nonempty(t, 0);
    let s = truncated(first_sentence_of(t), 180);
    assert(s.len() > 0);
    reveal_strlit("- ");
    let b = match opt_view(m.timestamp) {
        Some(ts) => "- "@ + ts + ": "@ + s,
        None => "- "@ + s,
    };
    assert(b[0] == '-');
    lemma_word_count_positive(b);
}

/// Memories of which one gives a bullet have candidate bullets.
proof fn lemma_candidates_nonempty(ms: Seq<EpisodicMemory>, i: int)
    requires
        0 <= i < ms.len(),
        bullet_of(ms[i]) is Some,
    ensures
        candidate_bullets(ms).len() > 0,
    decreases ms.len(),
{
    if i < ms.len() - 1 {
        assert(ms.drop_last()[i] == ms[i]);
        lemma_candidates_nonempty(ms.drop_last(), i);
    }
}

/// Whenever some memory has non-blank text, the extractive summary holds at
/// most `max_words` words.
pub proof fn lemma_extractive_within_budget(ms: Seq<EpisodicMemory>, max_words: nat)
    requires
        exists|i: int| 0 <= i < ms.len() && trim(#[trigger] ms[i].text@).len() > 0,
    ensures
        word_count(extractive_summary(ms, max_words)) <= max_words,
{
    let i = choose|i: int| 0 <= i < ms.len() && trim(#[trigger] ms[i].text@).len() > 0;
    lemma_bullet_of_nonblank(ms[i]);
    lemma_candidates_nonempty(ms, i);
    let c = candidate_bullets(ms);
    let k = bullets_taken(c, max_words);
    lemma_bullets_taken(c, max_words);
    if k > 0 {
        lemma_lines_word_count(c.take(k as int));
    } else {
        lemma_words_cut(c[0], max_words);
    }
}

/// The prompt line a memory contributes: `- <timestamp>: <text>` (or
/// `- <text>`), the trimmed text cut to 180 characters; none for a blank text.
pub open spec fn prompt_line(m: EpisodicMemory) -> Seq<char> {
    let t = trim(m.text@);
    if t.len() == 0 {
        Seq::empty()
    } else {
        match opt_view(m.timestamp) {
            Some(ts) => "- "@ + ts + ": "@ + truncated(t, 180) + "\n"@,
            None => "- "@ + truncated(t, 180) + "\n"@,
        }
    }
}

/// The prompt lines of memories, in order.
pub open spec fn prompt_lines(ms: Seq<EpisodicMemory>) -> Seq<char>
    decreases ms.len(),
{
    if ms.len() == 0 {
        Seq::empty()
    } else {
        prompt_lines(ms.drop_last()) + prompt_line(ms.last())
    }
}

/// A range boundary as written in the prompt.
pub open spec fn boundary_text(b: Option<Seq<char>>) -> Seq<char> {
    match b {
        Some(t) => t,
        None => "(unspecified)"@,
    }
}

/// The abstractive summarisation prompt: the instructions with the word budget,
/// the project and range, then one line per memory.
pub open spec fn abstractive_prompt(
    project_id: Seq<char>,
    start: Option<Seq<char>>,
    end: Option<Seq<char>>,
    max_words: nat,
    ms: Seq<EpisodicMemory>,
) -> Seq<char> {
    "System: You summarize developer activity into concise, factual bullet points. Prefer neutral tone. Avoid speculation. Include dates if present. Return at most "@
        + decimal(max_words) + " words. Output a single paragraph.\n\n"@
        + "Summarize the following episodic notes for project '"@ + project_id + "' between "@
        + boundary_text(start) + " and "@ + boundary_text(end) + ".\n"@ + prompt_lines(ms)
}

/// Builds the abstractive summarisation prompt.
pub fn build_abstractive_prompt(
    project_id: &str,
    time_range: &SearchTimeRange,
    max_words: usize,
    memories: &Vec<EpisodicMemory>,
) -> (res: String)
    ensures
        res@ == abstractive_prompt(
            project_id@,
            opt_view(time_range.start),
            opt_view(time_range.end),
            max_words as nat,
            memories@,
        ),
{
    let mut prompt = owned(
        "System: You summarize developer activity into concise, factual bullet points. Prefer neutral tone. Avoid speculation. Include dates if present. Return at most ",
    );
    let n = usize_decimal(max_words);
    append_str(&mut prompt, n.as_str());
    append_str(&mut prompt, " words. Output a single paragraph.\n\n");
    append_str(&mut prompt, "Summarize the following episodic notes for project '");
    append_str(&mut prompt, project_id);
    append_str(&mut prompt, "' between ");
    match &time_range.start {
        Some(s) => append_str(&mut prompt, s.as_str()),
        None => append_str(&mut prompt, "(unspecified)"),
    }
    append_str(&mut prompt, " and ");
    match &time_range.end {
        Some(s) => append_str(&mut prompt, s.as_str()),
        None => append_str(&mut prompt, "(unspecified)"),
    }
    append_str(&mut prompt, ".\n");
    let ghost head = prompt@;
    let mut i: usize = 0;
    while i < memories.len()
        invariant
            i <= memories.len(),
            prompt@ == head + prompt_lines(memories@.take(i as int)),
        decreases memories.len() - i,
    {
        let ghost pre = memories@.take(i + 1);
        assert(pre.drop_last() =~= memories@.take(i as int));
        let ghost before = prompt@;
        let t = trim_str(memories[i].text.as_str());
        if t.as_str().unicode_len() > 0 {
            let snippet = truncate_sentence(t.as_str(), 180);
            append_str(&mut prompt, "- ");
            match &memories[i].timestamp {
                Some(ts) => {
                    append_str(&mut prompt, ts.as_str());
                    append_str(&mut prompt, ": ");
                },
                None => {},
            }
            append_str(&mut prompt, snippet.as_str());
            append_str(&mut prompt, "\n");
            assert(prompt@ =~= before + prompt_line(memories@[i as int]));
        } else {
            assert(prompt@ =~= before + prompt_line(memories@[i as int]));
        }
        i = i + 1;
    }
    assert(memories@.take(memories.len() as int) =~= memories@);
    prompt
}

} // verus!
