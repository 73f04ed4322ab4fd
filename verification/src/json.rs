//! A JSON document model for the payloads, filters and responses the library builds.
//!
//! Objects are association lists that keep insertion order; `insert` replaces the
//! value of an existing key.  Numbers are unsigned or signed integers, or a
//! non-integral number kept as its decimal text.
//!
//! The compact text of a document is written here, against the `json_text`
//! specification, rather than by `serde_json`: this model is the library's own
//! type, serde's derives cannot be applied to it in verified code, and a
//! conversion into `serde_json::Value` would be a walk over the whole tree
//! with nothing proved about it.  `app/` converts to `serde_json` at its edge.
use crate::text::{append_str, decimal, owned, push_char, str_eq, usize_decimal, views};
use vstd::prelude::*;

verus! {

/// A JSON number.
#[derive(Debug, Clone, PartialEq)]
pub enum JsonNumber {
    /// A non-negative integer.
    U64(u64),
    /// A negative integer.
    I64(i64),
    /// Any other number, as its decimal text.
    Float(String),
}

/// A JSON value.
#[derive(Debug, PartialEq)]
pub enum Json {
    /// `null`.
    Null,
    /// `true` or `false`.
    Bool(bool),
    /// A number.
    Number(JsonNumber),
    /// A string.
    Str(String),
    /// An array.
    Array(Vec<Json>),
    /// An object, as its entries in insertion order.
    Object(Vec<(String, Json)>),
}

/// Mathematical model of a JSON number.
pub enum NumberView {
    /// A non-negative integer.
    U64(u64),
    /// A negative integer.
    I64(i64),
    /// Any other number, as its decimal text.
    Float(Seq<char>),
}

/// Mathematical model of a JSON value.
pub enum JsonView {
    /// `null`.
    Null,
    /// A boolean.
    Bool(bool),
    /// A number.
    Number(NumberView),
    /// A string.
    Str(Seq<char>),
    /// An array.
    Array(Seq<JsonView>),
    /// An object's entries in order.
    Object(Seq<(Seq<char>, JsonView)>),
}

impl JsonNumber {
    /// The model of this number.
    pub open spec fn view(&self) -> NumberView {
        match self {
            JsonNumber::U64(n) => NumberView::U64(*n),
            JsonNumber::I64(n) => NumberView::I64(*n),
            JsonNumber::Float(s) => NumberView::Float(s@),
        }
    }
}

impl Json {
    /// The model of this value.
    pub open spec fn view(&self) -> JsonView
        decreases self,
    {
        match self {
            Json::Null => JsonView::Null,
            Json::Bool(b) => JsonView::Bool(*b),
            Json::Number(n) => JsonView::Number(n.view()),
            Json::Str(s) => JsonView::Str(s@),
            Json::Array(items) => JsonView::Array(
                Seq::new(
                    items@.len(),
                    |i: int|
                        if 0 <= i < items@.len() {
                            proof {
                                assert(decreases_to!(items => items@));
                                assert(decreases_to!(items@ => items@[i]));
                            }
                            items@[i].view()
                        } else {
                            JsonView::Null
                        },
                ),
            ),
            Json::Object(entries) => JsonView::Object(
                Seq::new(
                    entries@.len(),
                    |i: int|
                        if 0 <= i < entries@.len() {
                            proof {
                                assert(decreases_to!(entries => entries@));
                                assert(decreases_to!(entries@ => entries@[i]));
                                assert(decreases_to!(entries@[i] => entries@[i].1));
                            }
                            (entries@[i].0@, entries@[i].1.view())
                        } else {
                            (Seq::empty(), JsonView::Null)
                        },
                ),
            ),
        }
    }
}

/// The model of an object's entries.
pub open spec fn entries_view(entries: Seq<(String, Json)>) -> Seq<(Seq<char>, JsonView)> {
    Seq::new(entries.len(), |i: int| (entries[i].0@, entries[i].1.view()))
}

/// Index of the first entry whose key is `key`, if any.
pub open spec fn key_index(entries: Seq<(Seq<char>, JsonView)>, key: Seq<char>) -> Option<int>
    decreases entries.len(),
{
    if entries.len() == 0 {
        None
    } else {
        match key_index(entries.drop_last(), key) {
            Some(i) => Some(i),
            None => if entries.last().0 == key {
                Some(entries.len() - 1)
            } else {
                None
            },
        }
    }
}

/// The value an object associates with `key`.
pub open spec fn lookup(entries: Seq<(Seq<char>, JsonView)>, key: Seq<char>) -> Option<JsonView> {
    match key_index(entries, key) {
        Some(i) => Some(entries[i].1),
        None => None,
    }
}

/// The entries after setting `key` to `value`: an existing entry is replaced in
/// place, a new key is appended.
pub open spec fn inserted(
    entries: Seq<(Seq<char>, JsonView)>,
    key: Seq<char>,
    value: JsonView,
) -> Seq<(Seq<char>, JsonView)> {
    match key_index(entries, key) {
        Some(i) => entries.update(i, (key, value)),
        None => entries.push((key, value)),
    }
}

/// The entries after removing the first entry with `key`.
pub open spec fn removed(entries: Seq<(Seq<char>, JsonView)>, key: Seq<char>) -> Seq<
    (Seq<char>, JsonView),
> {
    match key_index(entries, key) {
        Some(i) => entries.remove(i),
        None => entries,
    }
}

/// The key index is a position holding the key, with no earlier one.
pub proof fn lemma_key_index(entries: Seq<(Seq<char>, JsonView)>, key: Seq<char>)
    ensures
        key_index(entries, key) matches Some(i) ==> 0 <= i < entries.len() && entries[i].0 == key
            && forall|j: int| 0 <= j < i ==> entries[j].0 != key,
        key_index(entries, key) is None ==> forall|j: int| 0 <= j < entries.len() ==> entries[j].0 != key,
    decreases entries.len(),
{
    if entries.len() > 0 {
        lemma_key_index(entries.drop_last(), key);
        assert forall|j: int| 0 <= j < entries.len() - 1 implies entries.drop_last()[j] == entries[j] by {}
    }
}

/// The first entry holding a key is the one found.
pub proof fn lemma_key_index_at(entries: Seq<(Seq<char>, JsonView)>, key: Seq<char>, i: int)
    requires
        0 <= i < entries.len(),
        entries[i].0 == key,
        forall|j: int| 0 <= j < i ==> entries[j].0 != key,
    ensures
        key_index(entries, key) == Some(i),
    decreases entries.len(),
{
    if i < entries.len() - 1 {
        let t = entries.drop_last();
        assert forall|j: int| 0 <= j < i implies t[j].0 != key by {
            assert(t[j] == entries[j]);
        }
        lemma_key_index_at(t, key, i);
    } else {
        lemma_key_index_absent(entries.drop_last(), key);
    }
}

/// A key held by no entry is not found.
pub proof fn lemma_key_index_absent(entries: Seq<(Seq<char>, JsonView)>, key: Seq<char>)
    requires
        forall|j: int| 0 <= j < entries.len() ==> entries[j].0 != key,
    ensures
        key_index(entries, key) is None,
    decreases entries.len(),
{
    if entries.len() > 0 {
        let t = entries.drop_last();
        assert forall|j: int| 0 <= j < t.len() implies t[j].0 != key by {
            assert(t[j] == entries[j]);
        }
        lemma_key_index_absent(t, key);
        assert(entries.last() == entries[entries.len() - 1]);
    }
}

/// A key found in a prefix is found at the same place after anything is
/// appended.
pub proof fn lemma_key_index_prefix(
    a: Seq<(Seq<char>, JsonView)>,
    b: Seq<(Seq<char>, JsonView)>,
    key: Seq<char>,
)
    requires
        key_index(a, key) is Some,
    ensures
        key_index(a + b, key) == key_index(a, key),
    decreases b.len(),
{
    if b.len() == 0 {
        assert(a + b =~= a);
    } else {
        lemma_key_index_prefix(a, b.drop_last(), key);
        assert((a + b).drop_last() =~= a + b.drop_last());
    }
}

/// A key absent from a prefix is found in the appended part, shifted.
pub proof fn lemma_key_index_suffix(
    a: Seq<(Seq<char>, JsonView)>,
    b: Seq<(Seq<char>, JsonView)>,
    key: Seq<char>,
)
    requires
        key_index(a, key) is None,
    ensures
        key_index(a + b, key) == match key_index(b, key) {
            Some(i) => Some(a.len() + i),
            None => None::<int>,
        },
    decreases b.len(),
{
    if b.len() == 0 {
        assert(a + b =~= a);
    } else {
        lemma_key_index_suffix(a, b.drop_last(), key);
        assert((a + b).drop_last() =~= a + b.drop_last());
        assert((a + b).last() == b.last());
    }
}

/// Finds the first entry with `key`.
pub fn find_key(entries: &Vec<(String, Json)>, key: &str) -> (res: Option<usize>)
    ensures
        match res {
            Some(i) => i < entries@.len() && key_index(entries_view(entries@), key@) == Some(
                i as int,
            ),
            None => key_index(entries_view(entries@), key@) is None,
        },
{
    let ghost ev = entries_view(entries@);
    proof {
        lemma_key_index(ev, key@);
    }
    let mut i: usize = 0;
    while i < entries.len()
        invariant
            i <= entries.len(),
            ev == entries_view(entries@),
            forall|j: int| 0 <= j < i ==> (#[trigger] ev[j]).0 != key@,
            key_index(ev, key@) matches Some(x) ==> 0 <= x < ev.len() && ev[x].0 == key@ && forall|
                j: int,
            | 0 <= j < x ==> ev[j].0 != key@,
            key_index(ev, key@) is None ==> forall|j: int| 0 <= j < ev.len() ==> ev[j].0 != key@,
        decreases entries.len() - i,
    {
        assert(ev[i as int].0 == entries@[i as int].0@);
        if str_eq(entries[i].0.as_str(), key) {
            return Some(i);
        }
        i = i + 1;
    }
    None
}

/// The value stored under `key`, if any.
pub fn get_key<'a>(entries: &'a Vec<(String, Json)>, key: &str) -> (res: Option<&'a Json>)
    ensures
        match res {
            Some(v) => lookup(entries_view(entries@), key@) == Some(v.view()),
            None => lookup(entries_view(entries@), key@) is None,
        },
{
    match find_key(entries, key) {
        Some(i) => Some(&entries[i].1),
        None => None,
    }
}

/// Sets `key` to `value`, replacing an existing entry in place.
pub fn insert_key(entries: &mut Vec<(String, Json)>, key: String, value: Json)
    ensures
        entries_view(final(entries)@) == inserted(entries_view(old(entries)@), key@, value.view()),
{
    let ghost k = key@;
    let ghost v = value.view();
    match find_key(entries, key.as_str()) {
        Some(i) => {
            entries.set(i, (key, value));
            assert(entries_view(entries@) =~= entries_view(old(entries)@).update(i as int, (k, v)));
        },
        None => {
            entries.push((key, value));
            assert(entries_view(entries@) =~= entries_view(old(entries)@).push((k, v)));
        },
    }
}

/// Removes and returns the value stored under `key`.
pub fn remove_key(entries: &mut Vec<(String, Json)>, key: &str) -> (res: Option<Json>)
    ensures
        entries_view(final(entries)@) == removed(entries_view(old(entries)@), key@),
        match res {
            Some(v) => lookup(entries_view(old(entries)@), key@) == Some(v.view()),
            None => lookup(entries_view(old(entries)@), key@) is None,
        },
{
    match find_key(entries, key) {
        Some(i) => {
            let (_, v) = entries.remove(i);
            assert(entries_view(entries@) =~= entries_view(old(entries)@).remove(i as int));
            Some(v)
        },
        None => None,
    }
}

/// A JSON array of strings.
pub open spec fn str_array_v(items: Seq<Seq<char>>) -> JsonView {
    JsonView::Array(items.map_values(|s: Seq<char>| JsonView::Str(s)))
}

/// Builds a JSON array of strings.
pub fn string_array(items: &Vec<String>) -> (res: Json)
    ensures
        res.view() == str_array_v(views(items@)),
{
    let mut out: Vec<Json> = Vec::new();
    let mut i: usize = 0;
    while i < items.len()
        invariant
            i <= items.len(),
            out@.len() == i,
            forall|j: int| 0 <= j < i ==> #[trigger] out@[j].view() == JsonView::Str(items@[j]@),
        decreases items.len() - i,
    {
        out.push(Json::Str(items[i].clone()));
        i = i + 1;
    }
    let ghost out_view = out@;
    let res = Json::Array(out);
    proof {
        lemma_array_view(res);
        let target = views(items@).map_values(|s: Seq<char>| JsonView::Str(s));
        let got = Seq::new(out_view.len(), |i: int| out_view[i].view());
        assert(got =~= target);
    }
    res
}

/// The model of an array value lists the models of its items.
pub proof fn lemma_array_view(j: Json)
    requires
        j is Array,
    ensures
        j.view() == JsonView::Array(Seq::new(j->Array_0@.len(), |i: int| j->Array_0@[i].view())),
{
    let items = j->Array_0@;
    if let JsonView::Array(s) = j.view() {
        assert(s =~= Seq::new(items.len(), |i: int| items[i].view()));
    }
}

/// The model of an object value lists the models of its entries.
pub proof fn lemma_object_view(j: Json)
    requires
        j is Object,
    ensures
        j.view() == JsonView::Object(entries_view(j->Object_0@)),
{
    let entries = j->Object_0@;
    if let JsonView::Object(s) = j.view() {
        assert(s =~= entries_view(entries));
    }
}

/// A deep copy of a value.
pub fn json_clone(j: &Json) -> (res: Json)
    ensures
        res.view() == j.view(),
    decreases j,
{
    match j {
        Json::Null => Json::Null,
        Json::Bool(b) => Json::Bool(*b),
        Json::Number(n) => Json::Number(
            match n {
                JsonNumber::U64(v) => JsonNumber::U64(*v),
                JsonNumber::I64(v) => JsonNumber::I64(*v),
                JsonNumber::Float(t) => JsonNumber::Float(t.clone()),
            },
        ),
        Json::Str(s) => Json::Str(s.clone()),
        Json::Array(items) => {
            let mut out: Vec<Json> = Vec::new();
            let mut i: usize = 0;
            while i < items.len()
                invariant
                    i <= items.len(),
                    out@.len() == i,
                    *j == Json::Array(*items),
                    forall|k: int| 0 <= k < i ==> #[trigger] out@[k].view() == items@[k].view(),
                decreases items.len() - i,
            {
                proof {
                    assert(decreases_to!(*j => (*j)->Array_0));
                    assert(decreases_to!(*items => items@));
                    assert(decreases_to!(items@ => items@[i as int]));
                }
                let c = json_clone(&items[i]);
                out.push(c);
                i = i + 1;
            }
            let res = Json::Array(out);
            proof {
                lemma_array_view(res);
                lemma_array_view(*j);
                assert(Seq::new(out@.len(), |k: int| out@[k].view()) =~= Seq::new(
                    items@.len(),
                    |k: int| items@[k].view(),
                ));
            }
            res
        },
        Json::Object(entries) => {
            let mut out: Vec<(String, Json)> = Vec::new();
            let mut i: usize = 0;
            while i < entries.len()
                invariant
                    i <= entries.len(),
                    out@.len() == i,
                    *j == Json::Object(*entries),
                    forall|k: int|
                        0 <= k < i ==> #[trigger] out@[k].0@ == entries@[k].0@ && out@[k].1.view()
                            == entries@[k].1.view(),
                decreases entries.len() - i,
            {
                proof {
                    assert(decreases_to!(*j => (*j)->Object_0));
                    assert(decreases_to!(*entries => entries@));
                    assert(decreases_to!(entries@ => entries@[i as int]));
                    assert(decreases_to!(entries@[i as int] => entries@[i as int].1));
                }
                let c = json_clone(&entries[i].1);
                out.push((entries[i].0.clone(), c));
                i = i + 1;
            }
            let res = Json::Object(out);
            proof {
                lemma_object_view(res);
                lemma_object_view(*j);
                assert(entries_view(out@) =~= entries_view(entries@));
            }
            res
        },
    }
}

/// A lowercase hexadecimal digit.
pub open spec fn hex_char(n: nat) -> char {
    if n < 10 {
        (('0' as u8) + (n as u8)) as char
    } else {
        (('a' as u8) + ((n - 10) as u8)) as char
    }
}

/// How a character is written inside a JSON string: quotes and backslashes are
/// escaped, control characters use their short escapes or `\u00XX`.
pub open spec fn escaped_char(c: char) -> Seq<char> {
    if c == '"' {
        seq!['\\', '"']
    } else if c == '\\' {
        seq!['\\', '\\']
    } else if c == '\u{8}' {
        seq!['\\', 'b']
    } else if c == '\t' {
        seq!['\\', 't']
    } else if c == '\n' {
        seq!['\\', 'n']
    } else if c == '\u{c}' {
        seq!['\\', 'f']
    } else if c == '\r' {
        seq!['\\', 'r']
    } else if (c as u32) < 0x20 {
        seq!['\\', 'u', '0', '0', hex_char((c as u32 / 16) as nat), hex_char((c as u32 % 16) as nat)]
    } else {
        seq![c]
    }
}

/// The escaped characters of a string.
pub open spec fn escaped(s: Seq<char>) -> Seq<char>
    decreases s.len(),
{
    if s.len() == 0 {
        Seq::empty()
    } else {
        escaped(s.drop_last()) + escaped_char(s.last())
    }
}

/// A JSON string literal.
pub open spec fn quoted(s: Seq<char>) -> Seq<char> {
    seq!['"'] + escaped(s) + seq!['"']
}

/// Decimal rendering of a signed integer.
pub open spec fn signed_decimal(n: int) -> Seq<char> {
    if n < 0 {
        seq!['-'] + decimal((-n) as nat)
    } else {
        decimal(n as nat)
    }
}

/// The compact JSON text of a number.
pub open spec fn number_text(n: NumberView) -> Seq<char> {
    match n {
        NumberView::U64(v) => decimal(v as nat),
        NumberView::I64(v) => signed_decimal(v as int),
        NumberView::Float(t) => t,
    }
}

fn push_escaped(out: &mut String, s: &str)
    ensures
        final(out)@ == old(out)@ + escaped(s@),
{
    let v = crate::text::chars_of(s);
    let mut i: usize = 0;
    while i < v.len()
        invariant
            i <= v.len(),
            v@ == s@,
            out@ == old(out)@ + escaped(v@.take(i as int)),
        decreases v.len() - i,
    {
        let c = v[i];
        let ghost before = out@;
        if c == '"' {
            append_str(out, "\\\"");
        } else if c == '\\' {
            append_str(out, "\\\\");
        } else if c == '\u{8}' {
            append_str(out, "\\b");
        } else if c == '\t' {
            append_str(out, "\\t");
        } else if c == '\n' {
            append_str(out, "\\n");
        } else if c == '\u{c}' {
            append_str(out, "\\f");
        } else if c == '\r' {
            append_str(out, "\\r");
        } else if (c as u32) < 0x20 {
            append_str(out, "\\u00");
            let hi = (c as u32) / 16;
            let lo = (c as u32) % 16;
            push_char(out, if hi < 10 { ((48 + hi) as u8) as char } else { ((87 + hi) as u8) as char });
            push_char(out, if lo < 10 { ((48 + lo) as u8) as char } else { ((87 + lo) as u8) as char });
        } else {
            push_char(out, c);
        }
        proof {
            reveal_strlit("\\\"");
            reveal_strlit("\\\\");
            reveal_strlit("\\b");
            reveal_strlit("\\t");
            reveal_strlit("\\n");
            reveal_strlit("\\f");
            reveal_strlit("\\r");
            reveal_strlit("\\u00");
            assert(v@.take(i + 1).drop_last() =~= v@.take(i as int));
            assert(out@ =~= before + escaped_char(c));
        }
        i = i + 1;
    }
    assert(v@.take(v.len() as int) =~= v@);
}

/// Parts joined with commas.
pub open spec fn comma_joined(parts: Seq<Seq<char>>) -> Seq<char>
    decreases parts.len(),
{
    if parts.len() == 0 {
        Seq::empty()
    } else if parts.len() == 1 {
        parts[0]
    } else {
        comma_joined(parts.drop_last()) + seq![','] + parts.last()
    }
}

/// The compact JSON texts of array items.
pub open spec fn item_texts(items: Seq<JsonView>) -> Seq<Seq<char>>
    decreases items,
{
    Seq::new(
        items.len(),
        |i: int|
            if 0 <= i < items.len() {
                proof {
                    assert(decreases_to!(items => items[i]));
                }
                json_text(items[i])
            } else {
                Seq::empty()
            },
    )
}

/// The compact JSON texts of object entries: quoted key, colon, value.
pub open spec fn entry_texts(entries: Seq<(Seq<char>, JsonView)>) -> Seq<Seq<char>>
    decreases entries,
{
    Seq::new(
        entries.len(),
        |i: int|
            if 0 <= i < entries.len() {
                proof {
                    assert(decreases_to!(entries => entries[i]));
                    assert(decreases_to!(entries[i] => entries[i].1));
                }
                quoted(entries[i].0) + seq![':'] + json_text(entries[i].1)
            } else {
                Seq::empty()
            },
    )
}

/// The compact JSON text of a value, as `serde_json::to_string` writes it.
pub open spec fn json_text(v: JsonView) -> Seq<char>
    decreases v,
{
    match v {
        JsonView::Null => "null"@,
        JsonView::Bool(b) => if b {
            "true"@
        } else {
            "false"@
        },
        JsonView::Number(n) => number_text(n),
        JsonView::Str(t) => quoted(t),
        JsonView::Array(items) => {
            proof {
                assert(decreases_to!(v => items));
            }
            seq!['['] + comma_joined(item_texts(items)) + seq![']']
        },
        JsonView::Object(entries) => {
            proof {
                assert(decreases_to!(v => entries));
            }
            seq!['{'] + comma_joined(entry_texts(entries)) + seq!['}']
        },
    }
}

/// Writes a signed integer in decimal.
pub fn i64_decimal(n: i64) -> (res: String)
    ensures
        res@ == signed_decimal(n as int),
{
    if n < 0 {
        let magnitude: u64 = ((-(n + 1)) as u64) + 1;
        let mut res = owned("-");
        proof {
            reveal_strlit("-");
        }
        let d = u64_decimal(magnitude);
        append_str(&mut res, d.as_str());
        assert(res@ =~= seq!['-'] + decimal((-(n as int)) as nat));
        res
    } else {
        u64_decimal(n as u64)
    }
}

/// Writes an unsigned integer in decimal.
pub fn u64_decimal(n: u64) -> (res: String)
    ensures
        res@ == decimal(n as nat),
    decreases n,
{
    let d = (n % 10) as u8;
    let c = ((48 + d) as u8) as char;
    if n < 10 {
        let mut s = String::new();
        push_char(&mut s, c);
        assert(s@ =~= seq![crate::text::digit_char(n as nat)]);
        s
    } else {
        let mut s = u64_decimal(n / 10);
        push_char(&mut s, c);
        s
    }
}

/// Appends the compact JSON text of a value.
pub fn write_json(out: &mut String, j: &Json)
    ensures
        final(out)@ == old(out)@ + json_text(j.view()),
    decreases j,
{
    match j {
        Json::Null => append_str(out, "null"),
        Json::Bool(b) => if *b {
            append_str(out, "true")
        } else {
            append_str(out, "false")
        },
        Json::Number(n) => {
            let t = match n {
                JsonNumber::U64(v) => u64_decimal(*v),
                JsonNumber::I64(v) => i64_decimal(*v),
                JsonNumber::Float(f) => f.clone(),
            };
            append_str(out, t.as_str());
        },
        Json::Str(t) => {
            push_char(out, '"');
            push_escaped(out, t.as_str());
            push_char(out, '"');
        },
        Json::Array(items) => {
            proof {
                lemma_array_view(*j);
            }
            let ghost parts = Seq::new(items@.len(), |i: int| json_text(items@[i].view()));
            let ghost start = out@;
            push_char(out, '[');
            let mut i: usize = 0;
            while i < items.len()
                invariant
                    i <= items.len(),
                    *j == Json::Array(*items),
                    parts == Seq::new(items@.len(), |i: int| json_text(items@[i].view())),
                    out@ == start + seq!['['] + comma_joined(parts.take(i as int)),
                decreases items.len() - i,
            {
                proof {
                    assert(decreases_to!(*j => (*j)->Array_0));
                    assert(decreases_to!(*items => items@));
                    assert(decreases_to!(items@ => items@[i as int]));
                }
                let ghost before = out@;
                if i > 0 {
                    push_char(out, ',');
                }
                write_json(out, &items[i]);
                proof {
                    let pre = parts.take(i + 1);
                    assert(pre.drop_last() =~= parts.take(i as int));
                    if i == 0 {
                        assert(out@ =~= start + seq!['['] + comma_joined(pre));
                    } else {
                        assert(out@ =~= start + seq!['['] + comma_joined(pre));
                    }
                }
                i = i + 1;
            }
            push_char(out, ']');
            proof {
                assert(parts.take(items@.len() as int) =~= parts);
                let jv = j.view();
                if let JsonView::Array(vs) = jv {
                    assert(item_texts(vs) =~= parts);
                }
                assert(out@ =~= start + (seq!['['] + comma_joined(parts) + seq![']']));
                assert(out@ =~= start + json_text(j.view()));
            }
        },
        Json::Object(entries) => {
            proof {
                lemma_object_view(*j);
            }
            let ghost parts = Seq::new(
                entries@.len(),
                |i: int| quoted(entries@[i].0@) + seq![':'] + json_text(entries@[i].1.view()),
            );
            let ghost start = out@;
            push_char(out, '{');
            let mut i: usize = 0;
            while i < entries.len()
                invariant
                    i <= entries.len(),
                    *j == Json::Object(*entries),
                    parts == Seq::new(
                        entries@.len(),
                        |i: int| quoted(entries@[i].0@) + seq![':'] + json_text(entries@[i].1.view()),
                    ),
                    out@ == start + seq!['{'] + comma_joined(parts.take(i as int)),
                decreases entries.len() - i,
            {
                proof {
                    assert(decreases_to!(*j => (*j)->Object_0));
                    assert(decreases_to!(*entries => entries@));
                    assert(decreases_to!(entries@ => entries@[i as int]));
                    assert(decreases_to!(entries@[i as int] => entries@[i as int].1));
                }
                if i > 0 {
                    push_char(out, ',');
                }
                push_char(out, '"');
                push_escaped(out, entries[i].0.as_str());
                push_char(out, '"');
                push_char(out, ':');
                write_json(out, &entries[i].1);
                proof {
                    let pre = parts.take(i + 1);
                    assert(pre.drop_last() =~= parts.take(i as int));
                    assert(out@ =~= start + seq!['{'] + comma_joined(pre));
                }
                i = i + 1;
            }
            push_char(out, '}');
            proof {
                assert(parts.take(entries@.len() as int) =~= parts);
                let jv = j.view();
                if let JsonView::Object(es) = jv {
                    assert(es =~= entries_view(entries@));
                    assert(entry_texts(es) =~= parts);
                }
                assert(out@ =~= start + json_text(j.view()));
            }
        },
    }
}

/// The compact JSON text of a value.
pub fn to_json_string(j: &Json) -> (res: String)
    ensures
        res@ == json_text(j.view()),
{
    let mut out = String::new();
    write_json(&mut out, j);
    assert(out@ =~= json_text(j.view()));
    out
}

} // verus!
