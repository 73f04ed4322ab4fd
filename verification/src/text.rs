//! Character-level text primitives shared by the rest of the library.
//!
//! Strings are handled through their `Seq<char>` views.  Whitespace follows the
//! Unicode `White_Space` property, which is what `char::is_whitespace`,
//! `str::trim` and `str::split_whitespace` use.
use vstd::prelude::*;
use vstd::std_specs::iter::IteratorSpec;

verus! {

broadcast use vstd::string::group_string_axioms;

/// The Unicode `White_Space` property.
pub open spec fn is_white(c: char) -> bool {
    ||| ('\u{9}' <= c && c <= '\u{d}')
    ||| c == ' '
    ||| c == '\u{85}'
    ||| c == '\u{a0}'
    ||| c == '\u{1680}'
    ||| ('\u{2000}' <= c && c <= '\u{200a}')
    ||| c == '\u{2028}'
    ||| c == '\u{2029}'
    ||| c == '\u{202f}'
    ||| c == '\u{205f}'
    ||| c == '\u{3000}'
}

/// Executable test for [`is_white`].
pub fn is_white_char(c: char) -> (b: bool)
    ensures
        b == is_white(c),
{
    ('\u{9}' <= c && c <= '\u{d}') || c == ' ' || c == '\u{85}' || c == '\u{a0}' || c
        == '\u{1680}' || ('\u{2000}' <= c && c <= '\u{200a}') || c == '\u{2028}' || c
        == '\u{2029}' || c == '\u{202f}' || c == '\u{205f}' || c == '\u{3000}'
}

/// The characters of `s`, in order.
pub fn chars_of(s: &str) -> (v: Vec<char>)
    ensures
        v@ == s@,
{
    let mut v: Vec<char> = Vec::new();
    for c in iter: s.chars()
        invariant
            iter.seq() == s@,
            v@ == iter.seq().take(iter.index() as int),
    {
        v.push(c);
    }
    v
}

/// Appends one character to a `String` (`String::push`).
#[verifier::external_body]
pub fn push_char(s: &mut String, c: char)
    ensures
        final(s)@ == old(s)@.push(c),
{
    s.push(c);
}

/// Builds a `String` holding exactly the given characters.
pub fn string_of(v: &[char]) -> (res: String)
    ensures
        res@ == v@,
{
    let mut res = String::new();
    let mut i: usize = 0;
    while i < v.len()
        invariant
            i <= v.len(),
            res@ == v@.take(i as int),
        decreases v.len() - i,
    {
        push_char(&mut res, v[i]);
        assert(v@.take(i + 1) =~= v@.take(i as int).push(v@[i as int]));
        i = i + 1;
    }
    assert(v@.take(v.len() as int) =~= v@);
    res
}

/// Copies a string slice into an owned `String`.
pub fn owned(s: &str) -> (res: String)
    ensures
        res@ == s@,
{
    s.to_owned()
}

/// Character-wise equality of two string slices.
pub fn str_eq(a: &str, b: &str) -> (eq: bool)
    ensures
        eq == (a@ == b@),
{
    let x = chars_of(a);
    let y = chars_of(b);
    chars_eq(&x, &y)
}

/// Character-wise equality of two character slices.
pub fn chars_eq(x: &[char], y: &[char]) -> (eq: bool)
    ensures
        eq == (x@ == y@),
{
    if x.len() != y.len() {
        return false;
    }
    let mut i: usize = 0;
    while i < x.len()
        invariant
            i <= x.len(),
            x.len() == y.len(),
            forall|j: int| 0 <= j < i ==> x@[j] == y@[j],
        decreases x.len() - i,
    {
        if x[i] != y[i] {
            return false;
        }
        i = i + 1;
    }
    assert(x@ =~= y@);
    true
}

/// `s` with its leading whitespace removed.
pub open spec fn trim_start(s: Seq<char>) -> Seq<char>
    decreases s.len(),
{
    if s.len() > 0 && is_white(s[0]) {
        trim_start(s.drop_first())
    } else {
        s
    }
}

/// `s` with its trailing whitespace removed.
pub open spec fn trim_end(s: Seq<char>) -> Seq<char>
    decreases s.len(),
{
    if s.len() > 0 && is_white(s.last()) {
        trim_end(s.drop_last())
    } else {
        s
    }
}

/// `s` with leading and trailing whitespace removed, as `str::trim` does.
pub open spec fn trim(s: Seq<char>) -> Seq<char> {
    trim_end(trim_start(s))
}

/// Whether every character of `s` is whitespace.
pub open spec fn all_white(s: Seq<char>) -> bool {
    forall|i: int| 0 <= i < s.len() ==> is_white(#[trigger] s[i])
}

/// `trim_start` leaves nothing or a non-whitespace first character.
pub proof fn lemma_trim_start_edge(s: Seq<char>)
    ensures
        trim_start(s).len() > 0 ==> !is_white(trim_start(s)[0]),
    decreases s.len(),
{
    if s.len() > 0 && is_white(s[0]) {
        lemma_trim_start_edge(s.drop_first());
    }
}

/// `trim_end` keeps a prefix that is empty or ends in non-whitespace.
pub proof fn lemma_trim_end_edge(s: Seq<char>)
    ensures
        trim_end(s).len() <= s.len(),
        trim_end(s) == s.take(trim_end(s).len() as int),
        trim_end(s).len() > 0 ==> !is_white(trim_end(s).last()),
    decreases s.len(),
{
    if s.len() > 0 && is_white(s.last()) {
        lemma_trim_end_edge(s.drop_last());
        assert(s.drop_last().take(trim_end(s).len() as int) =~= s.take(trim_end(s).len() as int));
    } else {
        assert(s.take(s.len() as int) =~= s);
    }
}

/// A text that is empty or starts and ends with non-whitespace is its own trim.
pub proof fn lemma_trim_fixed(s: Seq<char>)
    requires
        s.len() > 0 ==> !is_white(s[0]) && !is_white(s.last()),
    ensures
        trim(s) == s,
{
}

/// Trimming twice is trimming once.
pub proof fn lemma_trim_idempotent(s: Seq<char>)
    ensures
        trim(trim(s)) == trim(s),
{
    lemma_trim_start_edge(s);
    let u = trim_start(s);
    lemma_trim_end_edge(u);
    let t = trim(s);
    if t.len() > 0 {
        assert(t[0] == u[0]);
    }
    lemma_trim_fixed(t);
}

/// Skipping `k` leading whitespace characters does not change `trim_start`.
pub proof fn lemma_trim_start_skip(s: Seq<char>, k: int)
    requires
        0 <= k <= s.len(),
        all_white(s.take(k)),
    ensures
        trim_start(s) == trim_start(s.skip(k)),
    decreases k,
{
    if k > 0 {
        assert(is_white(s.take(k)[0]));
        assert(s.drop_first().skip(k - 1) =~= s.skip(k));
        assert forall|i: int| 0 <= i < k - 1 implies is_white(#[trigger] s.drop_first().take(k - 1)[i]) by {
            assert(s.drop_first().take(k - 1)[i] == s.take(k)[i + 1]);
        }
        lemma_trim_start_skip(s.drop_first(), k - 1);
    } else {
        assert(s.skip(0) =~= s);
    }
}

/// Dropping `k` trailing whitespace characters does not change `trim_end`.
pub proof fn lemma_trim_end_take(s: Seq<char>, k: int)
    requires
        0 <= k <= s.len(),
        all_white(s.skip(k)),
    ensures
        trim_end(s) == trim_end(s.take(k)),
    decreases s.len() - k,
{
    if k < s.len() {
        assert(is_white(s.skip(k)[s.len() - k - 1]));
        assert(s.last() == s.skip(k)[s.len() - k - 1]);
        assert(s.drop_last().take(k) =~= s.take(k));
        assert forall|i: int| 0 <= i < s.len() - 1 - k implies is_white(#[trigger] s.drop_last().skip(k)[i]) by {
            assert(s.drop_last().skip(k)[i] == s.skip(k)[i]);
        }
        lemma_trim_end_take(s.drop_last(), k);
    } else {
        assert(s.take(k) =~= s);
    }
}

/// Index of the first non-whitespace character of `v` (its length if none).
pub fn first_non_white(v: &[char]) -> (k: usize)
    ensures
        k <= v.len(),
        all_white(v@.take(k as int)),
        k < v.len() ==> !is_white(v@[k as int]),
        trim_start(v@) == v@.skip(k as int),
{
    let mut k: usize = 0;
    while k < v.len() && is_white_char(v[k])
        invariant
            k <= v.len(),
            all_white(v@.take(k as int)),
        decreases v.len() - k,
    {
        assert forall|i: int| 0 <= i < k + 1 implies is_white(#[trigger] v@.take(k + 1)[i]) by {
            if i < k {
                assert(v@.take(k + 1)[i] == v@.take(k as int)[i]);
            }
        }
        k = k + 1;
    }
    proof {
        lemma_trim_start_skip(v@, k as int);
        let r = v@.skip(k as int);
        if r.len() > 0 {
            assert(r[0] == v@[k as int]);
        }
    }
    k
}

/// One past the last non-whitespace character of `v` at or after `lo`.
pub fn end_non_white(v: &[char], lo: usize) -> (k: usize)
    requires
        lo <= v.len(),
    ensures
        lo <= k <= v.len(),
        all_white(v@.skip(k as int)),
        k > lo ==> !is_white(v@[k - 1]),
{
    let mut k: usize = v.len();
    while k > lo && is_white_char(v[k - 1])
        invariant
            lo <= k <= v.len(),
            all_white(v@.skip(k as int)),
        decreases k,
    {
        assert forall|i: int| 0 <= i < v.len() - (k - 1) implies is_white(#[trigger] v@.skip(k - 1)[i]) by {
            if i > 0 {
                assert(v@.skip(k - 1)[i] == v@.skip(k as int)[i - 1]);
            }
        }
        k = k - 1;
    }
    k
}

/// `trim` of a sequence is its subrange between the first and last non-whitespace
/// characters.
pub proof fn lemma_trim_bounds(s: Seq<char>, a: int, b: int)
    requires
        0 <= a <= b <= s.len(),
        trim_start(s) == s.skip(a),
        all_white(s.take(a)),
        a < s.len() ==> !is_white(s[a]),
        all_white(s.skip(b)),
        b > a ==> !is_white(s[b - 1]),
        a == s.len() ==> b == a,
        a < s.len() ==> b > a,
    ensures
        trim(s) == s.subrange(a, b),
{
    let t = s.skip(a);
    assert(t.skip(b - a) =~= s.skip(b));
    lemma_trim_end_take(t, b - a);
    assert(t.take(b - a) =~= s.subrange(a, b));
    let u = s.subrange(a, b);
    if u.len() > 0 {
        assert(u.last() == s[b - 1]);
    }
}

/// The trimmed characters of `v`, as a `String`.
pub fn trim_chars(v: &[char]) -> (res: String)
    ensures
        res@ == trim(v@),
{
    let a = first_non_white(v);
    let b = if a < v.len() { end_non_white(v, a) } else { a };
    proof {
        if a < v.len() {
            assert(b > a) by {
                // The character at `a` is not whitespace, so the scan stops after it.
                if b == a {
                    assert(v@.skip(a as int)[0] == v@[a as int]);
                }
            }
        }
        lemma_trim_bounds(v@, a as int, b as int);
    }
    let mut res = String::new();
    let mut i: usize = a;
    while i < b
        invariant
            a <= i <= b <= v.len(),
            res@ == v@.subrange(a as int, i as int),
        decreases b - i,
    {
        push_char(&mut res, v[i]);
        assert(v@.subrange(a as int, i + 1) =~= v@.subrange(a as int, i as int).push(v@[i as int]));
        i = i + 1;
    }
    res
}

/// `str::trim`, returned as an owned `String`.
pub fn trim_str(s: &str) -> (res: String)
    ensures
        res@ == trim(s@),
{
    let v = chars_of(s);
    trim_chars(&v)
}

/// Whether `s` is empty once trimmed (`s.trim().is_empty()`).
pub open spec fn is_blank(s: Seq<char>) -> bool {
    trim(s).len() == 0
}

/// Executable [`is_blank`].
pub fn is_blank_str(s: &str) -> (b: bool)
    ensures
        b == is_blank(s@),
{
    let t = trim_str(s);
    t.as_str().unicode_len() == 0
}

/// What `str::to_lowercase` returns for a string (Unicode lowercase mapping).
pub uninterp spec fn lowercase(s: Seq<char>) -> Seq<char>;

/// Whether every character of `s` is ASCII.
pub open spec fn is_ascii_text(s: Seq<char>) -> bool {
    forall|i: int| 0 <= i < s.len() ==> (#[trigger] s[i] as u32) < 128
}

/// An ASCII upper-case letter mapped to its lower-case letter; any other
/// character unchanged.
pub open spec fn ascii_lower_char(c: char) -> char {
    if 'A' <= c && c <= 'Z' {
        ((c as u32) + 32) as char
    } else {
        c
    }
}

/// `s` with its ASCII upper-case letters lowered.
pub open spec fn ascii_lower(s: Seq<char>) -> Seq<char> {
    s.map_values(|c: char| ascii_lower_char(c))
}

/// The lowercase form of a text: the ASCII mapping for an ASCII text, the
/// Unicode mapping otherwise.
pub open spec fn lower(s: Seq<char>) -> Seq<char> {
    if is_ascii_text(s) {
        ascii_lower(s)
    } else {
        lowercase(s)
    }
}

/// `str::to_lowercase`: the result is the Unicode lowercase mapping of `s`, a
/// function of `s` alone.  For an ASCII text it is the mapping std documents
/// for ASCII: `A`..`Z` become `a`..`z`, every other character stays.  Nothing
/// more about non-ASCII text is stated.
#[verifier::external_body]
pub(crate) fn to_lowercase(s: &str) -> (res: String)
    ensures
        res@ == lowercase(s@),
        is_ascii_text(s@) ==> res@ == ascii_lower(s@),
{
    s.to_lowercase()
}

/// Trimming an ASCII text leaves an ASCII text.
pub proof fn lemma_trim_ascii(s: Seq<char>)
    requires
        is_ascii_text(s),
    ensures
        is_ascii_text(trim(s)),
{
    lemma_trim_start_ascii(s);
    lemma_trim_end_edge(trim_start(s));
    let u = trim_start(s);
    let t = trim(s);
    assert forall|i: int| 0 <= i < t.len() implies (#[trigger] t[i] as u32) < 128 by {
        assert(t[i] == u.take(t.len() as int)[i]);
        assert(u.take(t.len() as int)[i] == u[i]);
    }
}

/// `trim_start` of an ASCII text is ASCII.
proof fn lemma_trim_start_ascii(s: Seq<char>)
    requires
        is_ascii_text(s),
    ensures
        is_ascii_text(trim_start(s)),
    decreases s.len(),
{
    if s.len() > 0 && is_white(s[0]) {
        let d = s.drop_first();
        assert forall|i: int| 0 <= i < d.len() implies (#[trigger] d[i] as u32) < 128 by {
            assert(d[i] == s[i + 1]);
        }
        lemma_trim_start_ascii(d);
    }
}

/// Lowering an ASCII text keeps it ASCII, and lowering again changes nothing.
pub proof fn lemma_lower_idempotent(s: Seq<char>)
    requires
        is_ascii_text(s),
    ensures
        is_ascii_text(lower(s)),
        lower(lower(s)) == lower(s),
{
    let l = ascii_lower(s);
    assert forall|i: int| 0 <= i < l.len() implies (#[trigger] l[i] as u32) < 128 by {
        assert(l[i] == ascii_lower_char(s[i]));
    }
    assert(ascii_lower(l) =~= l);
}

/// A text of ASCII characters other than `A`..`Z` is its own lowercase.
pub proof fn lemma_lower_fixed(s: Seq<char>)
    requires
        forall|i: int| 0 <= i < s.len() ==> (#[trigger] s[i] as u32) < 128 && !('A' <= s[i] <= 'Z'),
    ensures
        lower(s) == s,
{
    assert(ascii_lower(s) =~= s);
}

/// Lowering an ASCII text keeps whitespace where it is, so a trimmed ASCII
/// text stays trimmed.
pub proof fn lemma_lower_trimmed(s: Seq<char>)
    requires
        is_ascii_text(s),
        trim(s) == s,
    ensures
        trim(lower(s)) == lower(s),
        lower(s).len() == s.len(),
{
    let l = ascii_lower(s);
    if s.len() > 0 {
        lemma_trim_start_edge(s);
        lemma_trim_end_edge(trim_start(s));
        assert(l[0] == ascii_lower_char(s[0]));
        assert(l.last() == ascii_lower_char(s.last()));
        assert(!is_white(s[0]));
        assert(!is_white(s.last()));
    }
    lemma_trim_fixed(l);
}

/// Number of maximal runs of non-whitespace characters, as counted by
/// `str::split_whitespace().count()`.
pub open spec fn word_count(s: Seq<char>) -> nat
    decreases s.len(),
{
    if s.len() == 0 {
        0
    } else {
        word_count(s.drop_last()) + if word_starts_at(s, s.len() - 1) {
            1nat
        } else {
            0nat
        }
    }
}

/// Whether a word (a maximal non-whitespace run) starts at index `i` of `s`.
pub open spec fn word_starts_at(s: Seq<char>, i: int) -> bool {
    !is_white(s[i]) && (i == 0 || is_white(s[i - 1]))
}

/// The number of words of a prefix grows by at most one per character.
pub proof fn lemma_word_count_bound(s: Seq<char>)
    ensures
        word_count(s) <= s.len(),
    decreases s.len(),
{
    if s.len() > 0 {
        lemma_word_count_bound(s.drop_last());
    }
}

/// Executable [`word_count`] over a character slice.
pub fn count_words_chars(v: &[char]) -> (n: usize)
    ensures
        n == word_count(v@),
{
    let mut n: usize = 0;
    let mut i: usize = 0;
    while i < v.len()
        invariant
            i <= v.len(),
            n == word_count(v@.take(i as int)),
            n <= i,
        decreases v.len() - i,
    {
        let starts = !is_white_char(v[i]) && (i == 0 || is_white_char(v[i - 1]));
        proof {
            let t = v@.take(i + 1);
            assert(t.drop_last() =~= v@.take(i as int));
            assert(t[i as int] == v@[i as int]);
            if i > 0 {
                assert(t[i - 1] == v@[i - 1]);
            }
            assert(starts == word_starts_at(t, i as int));
        }
        if starts {
            n = n + 1;
        }
        i = i + 1;
    }
    assert(v@.take(v.len() as int) =~= v@);
    n
}

/// Executable [`word_count`] over a string slice.
pub fn count_words(s: &str) -> (n: usize)
    ensures
        n == word_count(s@),
{
    let v = chars_of(s);
    count_words_chars(&v)
}

/// Whether `p` is a prefix of `s`.
pub open spec fn has_prefix(s: Seq<char>, p: Seq<char>) -> bool {
    p.len() <= s.len() && s.take(p.len() as int) == p
}

/// Whether `n` occurs as a contiguous run inside `s`.
pub open spec fn has_infix(s: Seq<char>, n: Seq<char>) -> bool {
    exists|i: int| 0 <= i && i + n.len() <= s.len() && #[trigger] s.subrange(i, i + n.len()) == n
}

/// Whether `y` occurs in `x` starting at `at`.
pub fn matches_at(x: &[char], y: &[char], at: usize) -> (b: bool)
    requires
        at + y.len() <= x.len(),
    ensures
        b == (x@.subrange(at as int, at + y.len()) == y@),
{
    let mut j: usize = 0;
    while j < y.len()
        invariant
            j <= y.len(),
            at + y.len() <= x.len(),
            forall|k: int| 0 <= k < j ==> x@[at + k] == y@[k],
        decreases y.len() - j,
    {
        if x[at + j] != y[j] {
            assert(x@.subrange(at as int, at + y.len())[j as int] != y@[j as int]);
            return false;
        }
        j = j + 1;
    }
    assert(x@.subrange(at as int, at + y.len()) =~= y@);
    true
}

/// `str::starts_with` on string slices.
pub fn starts_with(s: &str, p: &str) -> (b: bool)
    ensures
        b == has_prefix(s@, p@),
{
    let x = chars_of(s);
    let y = chars_of(p);
    if y.len() > x.len() {
        return false;
    }
    let b = matches_at(&x, &y, 0);
    assert(x@.subrange(0, y@.len() as int) =~= x@.take(y@.len() as int));
    b
}

/// Whether `p` is a suffix of `s`.
pub open spec fn has_suffix(s: Seq<char>, p: Seq<char>) -> bool {
    p.len() <= s.len() && s.skip(s.len() - p.len()) == p
}

/// `str::ends_with` on string slices.
pub fn ends_with(s: &str, p: &str) -> (b: bool)
    ensures
        b == has_suffix(s@, p@),
{
    let x = chars_of(s);
    let y = chars_of(p);
    if y.len() > x.len() {
        return false;
    }
    let at = x.len() - y.len();
    let b = matches_at(&x, &y, at);
    assert(x@.subrange(at as int, at + y@.len()) =~= x@.skip(at as int));
    b
}

/// `str::contains` of a string slice pattern.
pub fn contains(s: &str, n: &str) -> (b: bool)
    ensures
        b == has_infix(s@, n@),
{
    let x = chars_of(s);
    let y = chars_of(n);
    if y.len() > x.len() {
        return false;
    }
    let limit = x.len() - y.len();
    let mut i: usize = 0;
    loop
        invariant
            x@ == s@,
            y@ == n@,
            y.len() <= x.len(),
            limit == x.len() - y.len(),
            i <= limit,
            forall|k: int| 0 <= k < i ==> #[trigger] x@.subrange(k, k + y@.len()) != y@,
        decreases limit - i,
    {
        if matches_at(&x, &y, i) {
            assert(s@.subrange(i as int, i + n@.len()) == n@);
            return true;
        }
        if i == limit {
            assert forall|k: int| 0 <= k && k + n@.len() <= s@.len() implies #[trigger] s@.subrange(
                k,
                k + n@.len(),
            ) != n@ by {
                assert(x@.subrange(k, k + y@.len()) != y@);
            }
            return false;
        }
        i = i + 1;
    }
}

/// Index of the first non-whitespace character of `v` at or after `k` (its length
/// if none).
pub fn skip_white(v: &[char], k: usize) -> (a: usize)
    requires
        k <= v.len(),
    ensures
        k <= a <= v.len(),
        trim_start(v@.skip(k as int)) == v@.skip(a as int),
        all_white(v@.subrange(k as int, a as int)),
        a < v.len() ==> !is_white(v@[a as int]),
{
    let mut a: usize = k;
    while a < v.len() && is_white_char(v[a])
        invariant
            k <= a <= v.len(),
            all_white(v@.subrange(k as int, a as int)),
        decreases v.len() - a,
    {
        assert forall|i: int| 0 <= i < a + 1 - k implies is_white(
            #[trigger] v@.subrange(k as int, a + 1)[i],
        ) by {
            if i < a - k {
                assert(v@.subrange(k as int, a + 1)[i] == v@.subrange(k as int, a as int)[i]);
            }
        }
        a = a + 1;
    }
    proof {
        let t = v@.skip(k as int);
        assert(t.take(a - k) =~= v@.subrange(k as int, a as int));
        lemma_trim_start_skip(t, a - k);
        assert(t.skip(a - k) =~= v@.skip(a as int));
        let r = v@.skip(a as int);
        if r.len() > 0 {
            assert(r[0] == v@[a as int]);
        }
    }
    a
}

/// The characters `v[lo..hi]` as a `String`.
pub fn string_of_range(v: &[char], lo: usize, hi: usize) -> (res: String)
    requires
        lo <= hi <= v.len(),
    ensures
        res@ == v@.subrange(lo as int, hi as int),
{
    let mut res = String::new();
    let mut i: usize = lo;
    while i < hi
        invariant
            lo <= i <= hi <= v.len(),
            res@ == v@.subrange(lo as int, i as int),
        decreases hi - i,
    {
        push_char(&mut res, v[i]);
        assert(v@.subrange(lo as int, i + 1) =~= v@.subrange(lo as int, i as int).push(
            v@[i as int],
        ));
        i = i + 1;
    }
    res
}

/// A non-empty sequence without whitespace is a single word.
pub proof fn lemma_word_count_one(s: Seq<char>)
    requires
        s.len() > 0,
        forall|i: int| 0 <= i < s.len() ==> !is_white(#[trigger] s[i]),
    ensures
        word_count(s) == 1,
    decreases s.len(),
{
    if s.len() > 1 {
        let t = s.drop_last();
        assert forall|i: int| 0 <= i < t.len() implies !is_white(#[trigger] t[i]) by {
            assert(t[i] == s[i]);
        }
        lemma_word_count_one(t);
        assert(!word_starts_at(s, s.len() - 1)) by {
            assert(!is_white(s[s.len() - 2]));
        }
    } else {
        assert(s.drop_last().len() == 0);
        assert(word_count(s.drop_last()) == 0);
        assert(!is_white(s[0]));
    }
}

/// The character views of a sequence of strings.
pub open spec fn views(v: Seq<String>) -> Seq<Seq<char>> {
    v.map_values(|s: String| s@)
}

/// The character view of an optional string.
pub open spec fn opt_view(o: Option<String>) -> Option<Seq<char>> {
    match o {
        Some(s) => Some(s@),
        None => None,
    }
}

/// The character views of an optional list of strings.
pub open spec fn opt_views(o: Option<Vec<String>>) -> Option<Seq<Seq<char>>> {
    match o {
        Some(v) => Some(views(v@)),
        None => None,
    }
}

/// Whether `v` holds a string equal to `s`.
pub fn contains_string(v: &Vec<String>, s: &str) -> (b: bool)
    ensures
        b == views(v@).contains(s@),
{
    let mut i: usize = 0;
    while i < v.len()
        invariant
            i <= v.len(),
            forall|j: int| 0 <= j < i ==> #[trigger] v@[j]@ != s@,
        decreases v.len() - i,
    {
        if str_eq(v[i].as_str(), s) {
            assert(views(v@)[i as int] == s@);
            return true;
        }
        i = i + 1;
    }
    assert forall|j: int| 0 <= j < views(v@).len() implies #[trigger] views(v@)[j] != s@ by {
        assert(views(v@)[j] == v@[j]@);
    }
    false
}

/// Copies a vector of strings, keeping every element.
pub fn clone_strings(v: &Vec<String>) -> (res: Vec<String>)
    ensures
        views(res@) == views(v@),
{
    let mut res: Vec<String> = Vec::new();
    let mut i: usize = 0;
    while i < v.len()
        invariant
            i <= v.len(),
            views(res@) == views(v@).take(i as int),
        decreases v.len() - i,
    {
        let ghost before = res@;
        let c = v[i].clone();
        res.push(c);
        assert(views(res@) =~= views(before).push(v@[i as int]@));
        assert(views(v@).take(i + 1) =~= views(v@).take(i as int).push(v@[i as int]@));
        i = i + 1;
    }
    assert(views(v@).take(v.len() as int) =~= views(v@));
    res
}

/// Appends the characters of `t` to `s`.
pub fn append_str(s: &mut String, t: &str)
    ensures
        final(s)@ == old(s)@ + t@,
{
    let v = chars_of(t);
    let mut i: usize = 0;
    while i < v.len()
        invariant
            i <= v.len(),
            v@ == t@,
            s@ == old(s)@ + v@.take(i as int),
        decreases v.len() - i,
    {
        push_char(s, v[i]);
        assert(v@.take(i + 1) =~= v@.take(i as int).push(v@[i as int]));
        assert(old(s)@ + v@.take(i + 1) =~= (old(s)@ + v@.take(i as int)).push(v@[i as int]));
        i = i + 1;
    }
    assert(v@.take(v.len() as int) =~= v@);
}

/// The decimal digit for a value below ten.
pub open spec fn digit_char(d: nat) -> char {
    (('0' as u8) + (d as u8)) as char
}

/// Decimal rendering of a natural number, without leading zeros.
pub open spec fn decimal(n: nat) -> Seq<char>
    decreases n,
{
    if n < 10 {
        seq![digit_char(n)]
    } else {
        decimal(n / 10).push(digit_char(n % 10))
    }
}

/// Renders `n` in decimal, as `Display` does for `usize`.
pub fn usize_decimal(n: usize) -> (res: String)
    ensures
        res@ == decimal(n as nat),
    decreases n,
{
    let d = n % 10;
    let c: char = if d == 0 {
        '0'
    } else if d == 1 {
        '1'
    } else if d == 2 {
        '2'
    } else if d == 3 {
        '3'
    } else if d == 4 {
        '4'
    } else if d == 5 {
        '5'
    } else if d == 6 {
        '6'
    } else if d == 7 {
        '7'
    } else if d == 8 {
        '8'
    } else {
        '9'
    };
    if n < 10 {
        let mut s = String::new();
        push_char(&mut s, c);
        assert(s@ =~= seq![digit_char(n as nat)]);
        s
    } else {
        let mut s = usize_decimal(n / 10);
        push_char(&mut s, c);
        s
    }
}

} // verus!
