//! Normalisation of memory metadata: project identifiers, memory types and tags.
use crate::json::{entries_view, get_key, lemma_array_view, lookup, Json, JsonView};
use crate::qdrant::{array_strings, string_items, OverridesView, PayloadOverrides};
use crate::text::{
    contains_string, is_ascii_text, lemma_lower_fixed, lemma_lower_idempotent, lemma_lower_trimmed,
    lemma_trim_ascii, lemma_trim_fixed, lemma_trim_idempotent, lower, opt_view, opt_views,
    to_lowercase, trim, trim_str, views,
};
use vstd::prelude::*;

verus! {

/// The project identifier used when none is given.
pub open spec fn default_project() -> Seq<char> {
    "default"@
}

/// Whether `s` names one of the memory types (`episodic`, `semantic`, `procedural`).
pub open spec fn is_memory_type(s: Seq<char>) -> bool {
    s == "episodic"@ || s == "semantic"@ || s == "procedural"@
}

/// A value trimmed of surrounding whitespace, or `None` when nothing remains.
pub open spec fn cleaned(value: Option<Seq<char>>) -> Option<Seq<char>> {
    match value {
        Some(s) => if trim(s).len() == 0 {
            None
        } else {
            Some(trim(s))
        },
        None => None,
    }
}

/// The normalised project identifier: the cleaned value, else `default`.
pub open spec fn project_id_of(value: Option<Seq<char>>) -> Option<Seq<char>> {
    match cleaned(value) {
        Some(s) => Some(s),
        None => Some(default_project()),
    }
}

/// The normalised memory type: the lowercased cleaned value when it is a known
/// memory type, else `None`.
pub open spec fn memory_type_of(value: Option<Seq<char>>) -> Option<Seq<char>> {
    match cleaned(value) {
        Some(s) => if is_memory_type(lower(s)) {
            Some(lower(s))
        } else {
            None
        },
        None => None,
    }
}

/// The trimmed, lowercased, non-empty tags of `tags`, each kept at its first
/// occurrence.
pub open spec fn tag_list(tags: Seq<Seq<char>>) -> Seq<Seq<char>>
    decreases tags.len(),
{
    if tags.len() == 0 {
        Seq::empty()
    } else {
        let before = tag_list(tags.drop_last());
        let t = trim(tags.last());
        if t.len() == 0 || before.contains(lower(t)) {
            before
        } else {
            before.push(lower(t))
        }
    }
}

/// The normalised tags: `None` when absent or when no tag survives.
pub open spec fn tags_of(value: Option<Seq<Seq<char>>>) -> Option<Seq<Seq<char>>> {
    match value {
        Some(tags) => if tag_list(tags).len() == 0 {
            None
        } else {
            Some(tag_list(tags))
        },
        None => None,
    }
}

/// Trims a value and drops it when nothing remains.
pub fn sanitize_string(value: Option<String>) -> (res: Option<String>)
    ensures
        opt_view(res) == cleaned(opt_view(value)),
{
    match value {
        Some(input) => {
            let trimmed = trim_str(input.as_str());
            if trimmed.as_str().unicode_len() == 0 {
                None
            } else {
                Some(trimmed)
            }
        },
        None => None,
    }
}

/// Normalising a project identifier always gives one, and normalising that
/// again gives it back.
pub proof fn lemma_project_id_idempotent(value: Option<Seq<char>>)
    ensures
        project_id_of(value) is Some,
        project_id_of(project_id_of(value)) == project_id_of(value),
{
    match cleaned(value) {
        Some(t) => {
            lemma_trim_idempotent(value->0);
        },
        None => {
            reveal_strlit("default");
            lemma_trim_fixed(default_project());
        },
    }
}

/// Normalises a `project_id`, falling back to `default` when absent or blank;
/// normalising the result again gives it back.
pub fn sanitize_project_id(value: Option<String>) -> (res: Option<String>)
    ensures
        opt_view(res) == project_id_of(opt_view(value)),
        res is Some,
        project_id_of(opt_view(res)) == opt_view(res),
{
    proof {
        lemma_project_id_idempotent(opt_view(value));
    }
    match sanitize_string(value) {
        Some(s) => Some(s),
        None => Some("default".to_owned()),
    }
}

/// A memory type name is trimmed and lowercase.
pub proof fn lemma_memory_type_fixed(t: Seq<char>)
    requires
        is_memory_type(t),
    ensures
        t.len() > 0,
        trim(t) == t,
        lower(t) == t,
{
    reveal_strlit("episodic");
    reveal_strlit("semantic");
    reveal_strlit("procedural");
    assert(forall|i: int| 0 <= i < t.len() ==> 'a' <= #[trigger] t[i] <= 'z');
    lemma_trim_fixed(t);
    lemma_lower_fixed(t);
}

/// Normalising a memory type twice is normalising it once.
pub proof fn lemma_memory_type_idempotent(value: Option<Seq<char>>)
    ensures
        memory_type_of(memory_type_of(value)) == memory_type_of(value),
{
    if let Some(t) = memory_type_of(value) {
        lemma_memory_type_fixed(t);
    }
}

/// Normalises a `memory_type` to one of the known variants; normalising the
/// result again gives it back.
pub fn sanitize_memory_type(value: Option<String>) -> (res: Option<String>)
    ensures
        opt_view(res) == memory_type_of(opt_view(value)),
        memory_type_of(opt_view(res)) == opt_view(res),
{
    proof {
        lemma_memory_type_idempotent(opt_view(value));
    }
    match sanitize_string(value) {
        Some(candidate) => {
            let normalized = to_lowercase(candidate.as_str());
            if is_memory_type_str(normalized.as_str()) {
                Some(normalized)
            } else {
                None
            }
        },
        None => None,
    }
}

/// Whether `s` is one of the memory types.
pub fn is_memory_type_str(s: &str) -> (b: bool)
    ensures
        b == is_memory_type(s@),
{
    crate::text::str_eq(s, "episodic") || crate::text::str_eq(s, "semantic")
        || crate::text::str_eq(s, "procedural")
}

/// Normalises tags: trims, lowercases, drops empties and duplicates.
pub fn sanitize_tags(values: Option<Vec<String>>) -> (res: Option<Vec<String>>)
    ensures
        opt_views(res) == tags_of(opt_views(values)),
{
    let items = match values {
        Some(items) => items,
        None => return None,
    };
    let mut sanitized: Vec<String> = Vec::new();
    let mut i: usize = 0;
    while i < items.len()
        invariant
            i <= items.len(),
            views(sanitized@) == tag_list(views(items@).take(i as int)),
        decreases items.len() - i,
    {
        let ghost prefix = views(items@).take(i + 1);
        proof {
            assert(prefix.drop_last() =~= views(items@).take(i as int));
            assert(prefix.last() == items@[i as int]@);
        }
        let trimmed = trim_str(items[i].as_str());
        if trimmed.as_str().unicode_len() > 0 {
            let lowered = to_lowercase(trimmed.as_str());
            if !contains_string(&sanitized, lowered.as_str()) {
                let ghost before = sanitized@;
                sanitized.push(lowered);
                assert(views(sanitized@) =~= views(before).push(lower(trim(prefix.last()))));
            }
        }
        i = i + 1;
    }
    assert(views(items@).take(items.len() as int) =~= views(items@));
    if sanitized.len() == 0 {
        None
    } else {
        Some(sanitized)
    }
}

/// Sanitised tags hold no blank and no repeated entry.
pub proof fn lemma_tag_list_distinct(tags: Seq<Seq<char>>)
    ensures
        forall|i: int, j: int|
            0 <= i < j < tag_list(tags).len() ==> tag_list(tags)[i] != tag_list(tags)[j],
        tag_list(tags).len() <= tags.len(),
    decreases tags.len(),
{
    if tags.len() > 0 {
        lemma_tag_list_distinct(tags.drop_last());
        let before = tag_list(tags.drop_last());
        let t = trim(tags.last());
        if !(t.len() == 0 || before.contains(lower(t))) {
            let after = before.push(lower(t));
            assert forall|i: int, j: int| 0 <= i < j < after.len() implies after[i] != after[j] by {
                if j == after.len() - 1 {
                    assert(after[i] == before[i]);
                    if after[i] == after[j] {
                        assert(before.contains(lower(t)));
                    }
                }
            }
        }
    }
}

/// Every sanitised tag of ASCII tags is non-empty, trimmed, lowercase and ASCII.
pub proof fn lemma_tag_list_normal(tags: Seq<Seq<char>>)
    requires
        forall|i: int| 0 <= i < tags.len() ==> is_ascii_text(#[trigger] tags[i]),
    ensures
        forall|k: int|
            0 <= k < tag_list(tags).len() ==> {
                let t = #[trigger] tag_list(tags)[k];
                &&& t.len() > 0
                &&& trim(t) == t
                &&& lower(t) == t
                &&& is_ascii_text(t)
            },
    decreases tags.len(),
{
    if tags.len() > 0 {
        let prev = tags.drop_last();
        assert forall|i: int| 0 <= i < prev.len() implies is_ascii_text(#[trigger] prev[i]) by {
            assert(prev[i] == tags[i]);
        }
        lemma_tag_list_normal(prev);
        let before = tag_list(prev);
        let t = trim(tags.last());
        if !(t.len() == 0 || before.contains(lower(t))) {
            lemma_trim_ascii(tags.last());
            lemma_trim_idempotent(tags.last());
            lemma_lower_trimmed(t);
            lemma_lower_idempotent(t);
            let after = before.push(lower(t));
            assert forall|k: int| 0 <= k < after.len() implies {
                let x = #[trigger] after[k];
                &&& x.len() > 0
                &&& trim(x) == x
                &&& lower(x) == x
                &&& is_ascii_text(x)
            } by {
                if k < before.len() {
                    assert(after[k] == before[k]);
                }
            }
        }
    }
}

/// Distinct non-empty, trimmed, lowercase tags are their own sanitised list.
pub proof fn lemma_tag_list_fixed(tags: Seq<Seq<char>>)
    requires
        forall|k: int|
            0 <= k < tags.len() ==> {
                let t = #[trigger] tags[k];
                &&& t.len() > 0
                &&& trim(t) == t
                &&& lower(t) == t
            },
        forall|i: int, j: int| 0 <= i < j < tags.len() ==> tags[i] != tags[j],
    ensures
        tag_list(tags) == tags,
    decreases tags.len(),
{
    if tags.len() > 0 {
        let prev = tags.drop_last();
        assert forall|k: int| 0 <= k < prev.len() implies {
            let t = #[trigger] prev[k];
            &&& t.len() > 0
            &&& trim(t) == t
            &&& lower(t) == t
        } by {
            assert(prev[k] == tags[k]);
        }
        assert forall|i: int, j: int| 0 <= i < j < prev.len() implies prev[i] != prev[j] by {
            assert(prev[i] == tags[i] && prev[j] == tags[j]);
        }
        lemma_tag_list_fixed(prev);
        let last = tags.last();
        assert(tags[tags.len() - 1] == last);
        if prev.contains(last) {
            let i = choose|i: int| 0 <= i < prev.len() && prev[i] == last;
            assert(tags[i] == last);
        }
        assert(prev.push(last) =~= tags);
    }
}

/// Sanitising the sanitised tags of ASCII tags gives them back.
pub proof fn lemma_tags_idempotent(tags: Option<Seq<Seq<char>>>)
    requires
        tags matches Some(ts) ==> forall|i: int| 0 <= i < ts.len() ==> is_ascii_text(#[trigger] ts[i]),
    ensures
        tags_of(tags_of(tags)) == tags_of(tags),
{
    if let Some(ts) = tags {
        let r = tag_list(ts);
        if r.len() > 0 {
            lemma_tag_list_normal(ts);
            lemma_tag_list_distinct(ts);
            lemma_tag_list_fixed(r);
        }
    }
}

/// The tags stored in a payload: the trimmed non-blank strings of a `tags`
/// array, or the trimmed `tags` string; `None` when nothing usable is there.
pub open spec fn extracted_tags(payload: Seq<(Seq<char>, JsonView)>) -> Option<Seq<Seq<char>>> {
    match lookup(payload, "tags"@) {
        Some(JsonView::Array(items)) => if string_items(items).len() == 0 {
            None
        } else {
            Some(string_items(items))
        },
        Some(JsonView::Str(t)) => if trim(t).len() == 0 {
            None
        } else {
            Some(seq![trim(t)])
        },
        _ => None,
    }
}

/// Reads the tags of a stored payload.
pub fn extract_tags(payload: &Vec<(String, Json)>) -> (res: Option<Vec<String>>)
    ensures
        opt_views(res) == extracted_tags(entries_view(payload@)),
{
    match get_key(payload, "tags") {
        Some(value) => match value {
            Json::Array(values) => {
                proof {
                    lemma_array_view(*value);
                }
                let tags = array_strings(values);
                if tags.len() == 0 {
                    None
                } else {
                    Some(tags)
                }
            },
            Json::Str(tag) => {
                let t = trim_str(tag.as_str());
                if t.as_str().unicode_len() == 0 {
                    None
                } else {
                    let ghost tv = t@;
                    let v = vec![t];
                    assert(views(v@) =~= seq![tv]);
                    Some(v)
                }
            },
            _ => None,
        },
        None => None,
    }
}

/// Metadata supplied alongside a document to index.
#[derive(Debug, Default, Clone)]
pub struct IngestMetadata {
    /// Project identifier.
    pub project_id: Option<String>,
    /// Memory classification.
    pub memory_type: Option<String>,
    /// Tags applied to every chunk.
    pub tags: Option<Vec<String>>,
    /// URI of the source document.
    pub source_uri: Option<String>,
}

/// The payload overrides derived from ingest metadata: every field sanitised,
/// no source memories and no summary key.
pub open spec fn overrides_of(
    project_id: Option<Seq<char>>,
    memory_type: Option<Seq<char>>,
    tags: Option<Seq<Seq<char>>>,
    source_uri: Option<Seq<char>>,
) -> OverridesView {
    OverridesView {
        project_id: project_id_of(project_id),
        memory_type: memory_type_of(memory_type),
        tags: tags_of(tags),
        source_uri: cleaned(source_uri),
        source_memory_ids: None,
        summary_key: None,
    }
}

/// Converts ingest metadata into sanitised payload overrides.
pub fn to_payload_overrides(metadata: IngestMetadata) -> (res: PayloadOverrides)
    ensures
        res.view() == overrides_of(
            opt_view(metadata.project_id),
            opt_view(metadata.memory_type),
            opt_views(metadata.tags),
            opt_view(metadata.source_uri),
        ),
{
    let IngestMetadata { project_id, memory_type, tags, source_uri } = metadata;
    PayloadOverrides {
        project_id: sanitize_project_id(project_id),
        memory_type: sanitize_memory_type(memory_type),
        tags: sanitize_tags(tags),
        source_uri: sanitize_string(source_uri),
        source_memory_ids: None,
        summary_key: None,
    }
}

impl IngestMetadata {
    /// The sanitised payload overrides for this metadata.
    pub fn into_overrides(self) -> (res: PayloadOverrides)
        ensures
            res.view() == overrides_of(
                opt_view(self.project_id),
                opt_view(self.memory_type),
                opt_views(self.tags),
                opt_view(self.source_uri),
            ),
    {
        to_payload_overrides(self)
    }
}

} // verus!
