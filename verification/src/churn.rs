//! Git churn: commits, added and deleted lines, and the files changed most, from
//! `git log --numstat` output whose commit lines start with `commit:`.
use crate::decimal::{parse_decimal_u64, u64_decimal_parse};
use crate::text::{append_str, chars_of, decimal, has_prefix, owned, push_char, starts_with, str_eq, string_of_range, views};
use crate::json::{entries_view, lemma_array_view, lemma_object_view, u64_decimal, Json, JsonNumber, JsonView, NumberView};
use crate::tools::push_entry;
use vstd::prelude::*;

verus! {

/// The pieces of `s` between occurrences of `sep`, in order: one more than
/// there are occurrences.
pub open spec fn pieces(s: Seq<char>, sep: char) -> Seq<Seq<char>>
    decreases s.len(),
{
    if s.len() == 0 {
        seq![Seq::empty()]
    } else {
        let p = pieces(s.drop_last(), sep);
        if s.last() == sep {
            p.push(Seq::empty())
        } else {
            p.update(p.len() - 1, p.last().push(s.last()))
        }
    }
}

proof fn lemma_pieces_len(s: Seq<char>, sep: char)
    ensures
        pieces(s, sep).len() >= 1,
    decreases s.len(),
{
    if s.len() > 0 {
        lemma_pieces_len(s.drop_last(), sep);
    }
}

/// Splits a text at each occurrence of a separator (`str::split` on a `char`).
pub fn split_on(s: &str, sep: char) -> (res: Vec<String>)
    ensures
        views(res@) == pieces(s@, sep),
{
    let v = chars_of(s);
    let mut done: Vec<String> = Vec::new();
    let mut cur = String::new();
    let mut i: usize = 0;
    assert(v@.take(0) =~= Seq::<char>::empty());
    assert(views(done@).push(cur@) =~= pieces(v@.take(0), sep));
    while i < v.len()
        invariant
            i <= v.len(),
            v@ == s@,
            views(done@).push(cur@) == pieces(v@.take(i as int), sep),
        decreases v.len() - i,
    {
        let c = v[i];
        let ghost before = views(done@).push(cur@);
        assert(v@.take(i + 1).drop_last() =~= v@.take(i as int));
        assert(v@.take(i + 1).last() == c);
        if c == sep {
            let piece = cur;
            cur = String::new();
            done.push(piece);
            assert(views(done@).push(cur@) =~= before.push(Seq::empty()));
        } else {
            push_char(&mut cur, c);
            assert(views(done@).push(cur@) =~= before.update(
                before.len() - 1,
                before.last().push(c),
            ));
        }
        i = i + 1;
    }
    assert(v@.take(v.len() as int) =~= v@);
    done.push(cur);
    assert(views(done@) =~= pieces(s@, sep));
    done
}

/// A line without the carriage return that ended it.
pub open spec fn strip_cr(line: Seq<char>) -> Seq<char> {
    if line.len() > 0 && line.last() == '\r' {
        line.drop_last()
    } else {
        line
    }
}

/// The lines of a text as `str::lines` yields them: split at `\n`, each
/// terminated line without a final `\r`, and no empty line after a final `\n`.
pub open spec fn text_lines(s: Seq<char>) -> Seq<Seq<char>> {
    let p = pieces(s, '\n');
    p.drop_last().map_values(|l: Seq<char>| strip_cr(l)) + if p.last().len() > 0 {
        seq![p.last()]
    } else {
        Seq::empty()
    }
}

fn without_cr(line: &str) -> (res: String)
    ensures
        res@ == strip_cr(line@),
{
    let v = chars_of(line);
    if v.len() > 0 && v[v.len() - 1] == '\r' {
        let r = string_of_range(&v, 0, v.len() - 1);
        assert(r@ =~= line@.drop_last());
        r
    } else {
        owned(line)
    }
}

/// Splits a text into its lines (`str::lines`).
pub fn split_lines(s: &str) -> (res: Vec<String>)
    ensures
        views(res@) == text_lines(s@),
{
    let parts = split_on(s, '\n');
    let ghost p = pieces(s@, '\n');
    proof {
        lemma_pieces_len(s@, '\n');
    }
    let n = parts.len() - 1;
    let mut out: Vec<String> = Vec::new();
    let mut k: usize = 0;
    while k < n
        invariant
            k <= n,
            n == parts.len() - 1,
            views(parts@) == p,
            views(out@) == p.take(k as int).map_values(|l: Seq<char>| strip_cr(l)),
        decreases n - k,
    {
        assert(parts@[k as int]@ == p[k as int]);
        out.push(without_cr(parts[k].as_str()));
        assert(p.take(k + 1).map_values(|l: Seq<char>| strip_cr(l)) =~= p.take(k as int).map_values(
            |l: Seq<char>| strip_cr(l),
        ).push(strip_cr(p[k as int])));
        assert(views(out@) =~= p.take(k + 1).map_values(|l: Seq<char>| strip_cr(l)));
        k = k + 1;
    }
    assert(p.take(n as int) =~= p.drop_last());
    assert(parts@[n as int]@ == p.last());
    if chars_of(parts[n].as_str()).len() > 0 {
        out.push(owned(parts[n].as_str()));
    }
    assert(views(out@) =~= text_lines(s@));
    out
}

/// Whether `i` is the first entry for `path`.
pub open spec fn first_file(files: Seq<(Seq<char>, nat)>, path: Seq<char>, i: int) -> bool {
    0 <= i < files.len() && files[i].0 == path && forall|j: int|
        0 <= j < i ==> (#[trigger] files[j]).0 != path
}

/// The entry for `path`, if any.
pub open spec fn file_index(files: Seq<(Seq<char>, nat)>, path: Seq<char>) -> Option<int> {
    if exists|i: int| first_file(files, path, i) {
        Some(choose|i: int| first_file(files, path, i))
    } else {
        None
    }
}

/// The lines counted for `path` (zero when it has no entry).
pub open spec fn file_count(files: Seq<(Seq<char>, nat)>, path: Seq<char>) -> nat {
    match file_index(files, path) {
        Some(i) => files[i].1,
        None => 0,
    }
}

/// The counters after counting `v` more lines for `path`: its entry grows, or
/// a new entry is appended.
pub open spec fn bump(files: Seq<(Seq<char>, nat)>, path: Seq<char>, v: nat) -> Seq<
    (Seq<char>, nat),
> {
    match file_index(files, path) {
        Some(i) => files.update(i, (path, files[i].1 + v)),
        None => files.push((path, v)),
    }
}

proof fn lemma_file_index_at(files: Seq<(Seq<char>, nat)>, path: Seq<char>, i: int)
    requires
        first_file(files, path, i),
    ensures
        file_index(files, path) == Some(i),
{
    let c = choose|j: int| first_file(files, path, j);
    assert(c == i) by {
        if c < i {
            assert(files[c].0 != path);
        }
        if i < c {
            assert(files[i].0 != path);
        }
    }
}

proof fn lemma_file_index_absent(files: Seq<(Seq<char>, nat)>, path: Seq<char>)
    requires
        forall|j: int| 0 <= j < files.len() ==> (#[trigger] files[j]).0 != path,
    ensures
        file_index(files, path) is None,
{
    if exists|i: int| first_file(files, path, i) {
        let i = choose|i: int| first_file(files, path, i);
        assert(files[i].0 != path);
    }
}

proof fn lemma_file_index(files: Seq<(Seq<char>, nat)>, path: Seq<char>)
    ensures
        file_index(files, path) matches Some(i) ==> first_file(files, path, i),
        file_index(files, path) is None ==> forall|j: int|
            0 <= j < files.len() ==> (#[trigger] files[j]).0 != path,
{
    if file_index(files, path) is None {
        assert forall|j: int| 0 <= j < files.len() implies (#[trigger] files[j]).0 != path by {
            if files[j].0 == path {
                lemma_first_exists(files, path, j);
            }
        }
    }
}

proof fn lemma_first_exists(files: Seq<(Seq<char>, nat)>, path: Seq<char>, j: int)
    requires
        0 <= j < files.len(),
        files[j].0 == path,
    ensures
        exists|i: int| first_file(files, path, i),
    decreases j,
{
    if exists|k: int| 0 <= k < j && (#[trigger] files[k]).0 == path {
        let k = choose|k: int| 0 <= k < j && (#[trigger] files[k]).0 == path;
        lemma_first_exists(files, path, k);
    } else {
        assert(first_file(files, path, j));
    }
}

/// Counting lines for a path adds to that path's count and leaves the others.
pub proof fn lemma_bump_count(files: Seq<(Seq<char>, nat)>, path: Seq<char>, v: nat, p: Seq<char>)
    ensures
        file_count(bump(files, path, v), p) == file_count(files, p) + if p == path {
            v
        } else {
            0
        },
{
    lemma_file_index(files, path);
    lemma_file_index(files, p);
    let b = bump(files, path, v);
    match file_index(files, path) {
        Some(i) => {
            if p == path {
                assert forall|j: int| 0 <= j < i implies (#[trigger] b[j]).0 != p by {
                    assert(b[j] == files[j]);
                }
                lemma_file_index_at(b, p, i);
            } else {
                match file_index(files, p) {
                    Some(m) => {
                        assert forall|j: int| 0 <= j < m implies (#[trigger] b[j]).0 != p by {
                            assert(files[j].0 != p);
                        }
                        lemma_file_index_at(b, p, m);
                    },
                    None => {
                        assert forall|j: int| 0 <= j < b.len() implies (#[trigger] b[j]).0 != p by {
                            if j != i {
                                assert(b[j] == files[j]);
                            }
                        }
                        lemma_file_index_absent(b, p);
                    },
                }
            }
        },
        None => {
            if p == path {
                assert forall|j: int| 0 <= j < files.len() implies (#[trigger] b[j]).0 != p by {
                    assert(b[j] == files[j]);
                }
                lemma_file_index_at(b, p, files.len() as int);
            } else {
                match file_index(files, p) {
                    Some(m) => {
                        assert forall|j: int| 0 <= j < m implies (#[trigger] b[j]).0 != p by {
                            assert(b[j] == files[j]);
                        }
                        lemma_file_index_at(b, p, m);
                    },
                    None => {
                        assert forall|j: int| 0 <= j < b.len() implies (#[trigger] b[j]).0 != p by {
                            if j < files.len() {
                                assert(b[j] == files[j]);
                            }
                        }
                        lemma_file_index_absent(b, p);
                    },
                }
            }
        },
    }
}

/// The state of a churn count: commits seen, whether a commit has started,
/// lines added and deleted, and lines changed per file in first-seen order.
pub struct ChurnModel {
    /// Commits seen.
    pub commits: nat,
    /// Whether a commit line has been seen.
    pub in_commit: bool,
    /// Lines added.
    pub additions: nat,
    /// Lines deleted.
    pub deletions: nat,
    /// Lines changed per file.
    pub files: Seq<(Seq<char>, nat)>,
}

/// The state before any line.
pub open spec fn churn_start() -> ChurnModel {
    ChurnModel { commits: 0, in_commit: false, additions: 0, deletions: 0, files: Seq::empty() }
}

/// The state after counting `v` added lines for `path`.
pub open spec fn count_added(st: ChurnModel, path: Seq<char>, v: nat) -> ChurnModel {
    ChurnModel {
        commits: st.commits,
        in_commit: st.in_commit,
        additions: st.additions + v,
        deletions: st.deletions,
        files: bump(st.files, path, v),
    }
}

/// The state after counting `v` deleted lines for `path`.
pub open spec fn count_deleted(st: ChurnModel, path: Seq<char>, v: nat) -> ChurnModel {
    ChurnModel {
        commits: st.commits,
        in_commit: st.in_commit,
        additions: st.additions,
        deletions: st.deletions + v,
        files: bump(st.files, path, v),
    }
}

/// The state after one line.  A `commit:` line starts a commit.  Within a
/// commit, a line of at least three tab-separated fields counts its first field
/// as added and its second as deleted lines of the file its third field names,
/// each only when it is a number.  Anything else is skipped.
pub open spec fn churn_step(st: ChurnModel, line: Seq<char>) -> ChurnModel {
    if has_prefix(line, "commit:"@) {
        ChurnModel {
            commits: st.commits + 1,
            in_commit: true,
            additions: st.additions,
            deletions: st.deletions,
            files: st.files,
        }
    } else if st.in_commit {
        let fields = pieces(line, '\t');
        if fields.len() >= 3 {
            let path = fields[2];
            let added = match u64_decimal_parse(fields[0]) {
                Some(v) => count_added(st, path, v as nat),
                None => st,
            };
            match u64_decimal_parse(fields[1]) {
                Some(v) => count_deleted(added, path, v as nat),
                None => added,
            }
        } else {
            st
        }
    } else {
        st
    }
}

/// The state after a sequence of lines.
pub open spec fn churn_fold(lines: Seq<Seq<char>>) -> ChurnModel
    decreases lines.len(),
{
    if lines.len() == 0 {
        churn_start()
    } else {
        churn_step(churn_fold(lines.drop_last()), lines.last())
    }
}

/// The churn of a whole text.
pub open spec fn churn_of(content: Seq<char>) -> ChurnModel {
    churn_fold(text_lines(content))
}

/// Whether every counter of a state fits in 64 bits.
pub open spec fn churn_fits(m: ChurnModel) -> bool {
    &&& m.commits <= u64::MAX
    &&& m.additions <= u64::MAX
    &&& m.deletions <= u64::MAX
    &&& forall|p: Seq<char>| #[trigger] file_count(m.files, p) <= u64::MAX
}

/// Whether every counter of `a` is at most that of `b`.
pub open spec fn churn_le(a: ChurnModel, b: ChurnModel) -> bool {
    &&& a.commits <= b.commits
    &&& a.additions <= b.additions
    &&& a.deletions <= b.deletions
    &&& forall|p: Seq<char>| #[trigger] file_count(a.files, p) <= file_count(b.files, p)
}

proof fn lemma_le_transitive(a: ChurnModel, b: ChurnModel, c: ChurnModel)
    requires
        churn_le(a, b),
        churn_le(b, c),
    ensures
        churn_le(a, c),
{
    assert forall|p: Seq<char>| #[trigger] file_count(a.files, p) <= file_count(c.files, p) by {
        assert(file_count(a.files, p) <= file_count(b.files, p));
        assert(file_count(b.files, p) <= file_count(c.files, p));
    }
}

proof fn lemma_fits_down(a: ChurnModel, b: ChurnModel)
    requires
        churn_le(a, b),
        churn_fits(b),
    ensures
        churn_fits(a),
{
    assert forall|p: Seq<char>| #[trigger] file_count(a.files, p) <= u64::MAX by {
        assert(file_count(b.files, p) <= u64::MAX);
    }
}

proof fn lemma_step_grows(st: ChurnModel, line: Seq<char>)
    ensures
        churn_le(st, churn_step(st, line)),
{
    let next = churn_step(st, line);
    assert forall|p: Seq<char>| #[trigger] file_count(st.files, p) <= file_count(next.files, p) by {
        if !has_prefix(line, "commit:"@) && st.in_commit {
            let fields = pieces(line, '\t');
            if fields.len() >= 3 {
                let path = fields[2];
                let added = match u64_decimal_parse(fields[0]) {
                    Some(v) => count_added(st, path, v as nat),
                    None => st,
                };
                if let Some(v) = u64_decimal_parse(fields[0]) {
                    lemma_bump_count(st.files, path, v as nat, p);
                }
                if let Some(v) = u64_decimal_parse(fields[1]) {
                    lemma_bump_count(added.files, path, v as nat, p);
                }
            }
        }
    }
}

/// Counters only grow: the state after a prefix of the lines is below the state
/// after all of them.
pub proof fn lemma_fold_grows(lines: Seq<Seq<char>>, k: int)
    requires
        0 <= k <= lines.len(),
    ensures
        churn_le(churn_fold(lines.take(k)), churn_fold(lines)),
    decreases lines.len(),
{
    if k == lines.len() {
        assert(lines.take(k) =~= lines);
    } else {
        let front = lines.drop_last();
        lemma_fold_grows(front, k);
        assert(front.take(k) =~= lines.take(k));
        lemma_step_grows(churn_fold(front), lines.last());
        lemma_le_transitive(churn_fold(lines.take(k)), churn_fold(front), churn_fold(lines));
    }
}

/// The counters of a run over a text.
struct ChurnCounter {
    commits: u64,
    in_commit: bool,
    additions: u64,
    deletions: u64,
    files: Vec<(String, u64)>,
}

/// The model of a list of per-file counters.
pub open spec fn files_view(files: Seq<(String, u64)>) -> Seq<(Seq<char>, nat)> {
    Seq::new(files.len(), |i: int| (files[i].0@, files[i].1 as nat))
}

impl ChurnCounter {
    spec fn model(&self) -> ChurnModel {
        ChurnModel {
            commits: self.commits as nat,
            in_commit: self.in_commit,
            additions: self.additions as nat,
            deletions: self.deletions as nat,
            files: files_view(self.files@),
        }
    }
}

fn bump_file(files: &mut Vec<(String, u64)>, path: &str, v: u64) -> (ok: bool)
    ensures
        ok ==> files_view(final(files)@) == bump(files_view(old(files)@), path@, v as nat),
        !ok ==> file_count(files_view(old(files)@), path@) + v > u64::MAX,
{
    let ghost fv = files_view(files@);
    let mut i: usize = 0;
    while i < files.len()
        invariant
            i <= files.len(),
            fv == files_view(files@),
            files@ == old(files)@,
            forall|j: int| 0 <= j < i ==> (#[trigger] fv[j]).0 != path@,
        decreases files.len() - i,
    {
        assert(fv[i as int].0 == files@[i as int].0@);
        if str_eq(files[i].0.as_str(), path) {
            proof {
                lemma_file_index_at(fv, path@, i as int);
            }
            match files[i].1.checked_add(v) {
                Some(n) => {
                    files.set(i, (owned(path), n));
                    assert(files_view(files@) =~= bump(fv, path@, v as nat));
                    return true;
                },
                None => {
                    return false;
                },
            }
        }
        i = i + 1;
    }
    proof {
        lemma_file_index_absent(fv, path@);
    }
    files.push((owned(path), v));
    assert(files_view(files@) =~= bump(fv, path@, v as nat));
    true
}

fn count_line(counter: &mut ChurnCounter, line: &str) -> (ok: bool)
    ensures
        ok ==> final(counter).model() == churn_step(old(counter).model(), line@),
        !ok ==> !churn_fits(churn_step(old(counter).model(), line@)),
{
    let ghost st = counter.model();
    if starts_with(line, "commit:") {
        match counter.commits.checked_add(1) {
            Some(c) => {
                counter.commits = c;
                counter.in_commit = true;
                return true;
            },
            None => {
                return false;
            },
        }
    }
    if !counter.in_commit {
        return true;
    }
    let fields = split_on(line, '\t');
    if fields.len() < 3 {
        return true;
    }
    let ghost fv = views(fields@);
    assert(fv[2] == fields@[2]@ && fv[0] == fields@[0]@ && fv[1] == fields@[1]@);
    let path = fields[2].as_str();
    let ghost next = churn_step(st, line@);
    match parse_decimal_u64(fields[0].as_str()) {
        Some(v) => {
            proof {
                lemma_bump_count(st.files, path@, v as nat, path@);
            }
            let ghost added = count_added(st, path@, v as nat);
            match counter.additions.checked_add(v) {
                Some(a) => {
                    counter.additions = a;
                },
                None => {
                    assert(!churn_fits(next)) by {
                        lemma_step_grows(added, line@);
                        if let Some(d) = u64_decimal_parse(fv[1]) {
                            assert(next.additions == added.additions);
                        }
                    }
                    return false;
                },
            }
            if !bump_file(&mut counter.files, path, v) {
                assert(!churn_fits(next)) by {
                    if let Some(d) = u64_decimal_parse(fv[1]) {
                        lemma_bump_count(added.files, path@, d as nat, path@);
                    }
                    assert(file_count(next.files, path@) > u64::MAX);
                }
                return false;
            }
            assert(counter.model() == added);
        },
        None => {},
    }
    let ghost mid = counter.model();
    match parse_decimal_u64(fields[1].as_str()) {
        Some(v) => {
            proof {
                lemma_bump_count(mid.files, path@, v as nat, path@);
            }
            match counter.deletions.checked_add(v) {
                Some(d) => {
                    counter.deletions = d;
                },
                None => {
                    return false;
                },
            }
            if !bump_file(&mut counter.files, path, v) {
                assert(file_count(next.files, path@) > u64::MAX);
                return false;
            }
            assert(counter.model() == count_deleted(mid, path@, v as nat));
        },
        None => {},
    }
    true
}

/// Whether `i` holds the largest count of `s`, with every earlier count
/// smaller.
pub open spec fn is_first_max(s: Seq<(Seq<char>, nat)>, i: int) -> bool {
    &&& 0 <= i < s.len()
    &&& forall|k: int| 0 <= k < s.len() ==> (#[trigger] s[k]).1 <= s[i].1
    &&& forall|k: int| 0 <= k < i ==> (#[trigger] s[k]).1 < s[i].1
}

/// The files ordered by count, largest first; among equal counts the one seen
/// first comes first.
pub open spec fn ranked(s: Seq<(Seq<char>, nat)>) -> Seq<(Seq<char>, nat)>
    decreases s.len(),
{
    if s.len() == 0 {
        Seq::empty()
    } else {
        let i = choose|i: int| is_first_max(s, i);
        if 0 <= i < s.len() {
            seq![s[i]] + ranked(s.remove(i))
        } else {
            s
        }
    }
}

proof fn lemma_first_max_exists(s: Seq<(Seq<char>, nat)>)
    requires
        s.len() > 0,
    ensures
        exists|i: int| is_first_max(s, i),
    decreases s.len(),
{
    if s.len() == 1 {
        assert(is_first_max(s, 0));
    } else {
        let t = s.drop_last();
        lemma_first_max_exists(t);
        let j = choose|j: int| is_first_max(t, j);
        assert forall|k: int| 0 <= k < t.len() implies #[trigger] t[k] == s[k] by {}
        assert(s[j] == t[j]);
        assert forall|k: int| 0 <= k < t.len() implies (#[trigger] s[k]).1 <= t[j].1 by {
            assert(t[k] == s[k]);
        }
        assert forall|k: int| 0 <= k < j implies (#[trigger] s[k]).1 < t[j].1 by {
            assert(t[k] == s[k]);
        }
        if s.last().1 > t[j].1 {
            assert(is_first_max(s, s.len() - 1));
        } else {
            assert(is_first_max(s, j));
        }
    }
}

proof fn lemma_first_max_unique(s: Seq<(Seq<char>, nat)>, i: int)
    requires
        is_first_max(s, i),
    ensures
        (choose|j: int| is_first_max(s, j)) == i,
        ranked(s) == seq![s[i]] + ranked(s.remove(i)),
{
    let c = choose|j: int| is_first_max(s, j);
    assert(c == i) by {
        if c < i {
            assert(s[c].1 < s[i].1);
        }
        if i < c {
            assert(s[i].1 < s[c].1);
        }
    }
}

/// Ranking keeps the files and orders them by count, largest first.
pub proof fn lemma_ranked(s: Seq<(Seq<char>, nat)>)
    ensures
        ranked(s).len() == s.len(),
        ranked(s).to_multiset() == s.to_multiset(),
        forall|a: int, b: int| 0 <= a < b < s.len() ==> ranked(s)[a].1 >= ranked(s)[b].1,
    decreases s.len(),
{
    broadcast use vstd::seq_lib::group_to_multiset_ensures, vstd::multiset::group_multiset_axioms;

    if s.len() == 0 {
        assert(ranked(s).to_multiset() =~= s.to_multiset());
    } else {
        lemma_first_max_exists(s);
        let i = choose|i: int| is_first_max(s, i);
        lemma_first_max_unique(s, i);
        let rest = s.remove(i);
        lemma_ranked(rest);
        let tail = ranked(rest);
        let r = ranked(s);
        vstd::seq_lib::lemma_multiset_commutative(seq![s[i]], tail);
        assert(seq![s[i]].to_multiset() =~= vstd::multiset::Multiset::singleton(s[i])) by {
            assert(seq![s[i]] =~= Seq::<(Seq<char>, nat)>::empty().push(s[i]));
        }
        assert(r.to_multiset() =~= s.to_multiset());
        assert forall|a: int, b: int| 0 <= a < b < s.len() implies r[a].1 >= r[b].1 by {
            if a == 0 {
                let y = tail[b - 1];
                assert(tail.contains(y));
                vstd::seq_lib::to_multiset_contains(tail, y);
                vstd::seq_lib::to_multiset_contains(rest, y);
                let k = choose|k: int| 0 <= k < rest.len() && rest[k] == y;
                if k < i {
                    assert(rest[k] == s[k]);
                } else {
                    assert(rest[k] == s[k + 1]);
                }
            } else {
                assert(r[a] == tail[a - 1]);
                assert(r[b] == tail[b - 1]);
            }
        }
    }
}

fn first_max(files: &Vec<(String, u64)>) -> (i: usize)
    requires
        files.len() > 0,
    ensures
        is_first_max(files_view(files@), i as int),
{
    let ghost fv = files_view(files@);
    let mut best: usize = 0;
    let mut k: usize = 1;
    while k < files.len()
        invariant
            best < k <= files.len(),
            fv == files_view(files@),
            forall|j: int| 0 <= j < k ==> (#[trigger] fv[j]).1 <= fv[best as int].1,
            forall|j: int| 0 <= j < best ==> (#[trigger] fv[j]).1 < fv[best as int].1,
        decreases files.len() - k,
    {
        if files[k].1 > files[best].1 {
            best = k;
        }
        k = k + 1;
    }
    best
}

/// How many files the summary lists: at most five.
pub open spec fn top_count(n: nat) -> int {
    if n < 5 {
        n as int
    } else {
        5
    }
}

/// The files a summary lists: the five with the most changed lines.
pub open spec fn top_files_v(files: Seq<(Seq<char>, nat)>) -> Seq<(Seq<char>, nat)> {
    ranked(files).take(top_count(files.len()))
}

fn copy_files(files: &Vec<(String, u64)>) -> (res: Vec<(String, u64)>)
    ensures
        files_view(res@) == files_view(files@),
{
    let mut out: Vec<(String, u64)> = Vec::new();
    let mut i: usize = 0;
    while i < files.len()
        invariant
            i <= files.len(),
            files_view(out@) == files_view(files@).take(i as int),
        decreases files.len() - i,
    {
        let name = files[i].0.clone();
        assert(name@ == files@[i as int].0@);
        let ghost before = out@;
        out.push((name, files[i].1));
        assert(files_view(out@) =~= files_view(before).push((name@, files@[i as int].1 as nat)));
        assert(files_view(out@) =~= files_view(files@).take(i + 1));
        i = i + 1;
    }
    assert(files_view(files@).take(files.len() as int) =~= files_view(files@));
    out
}

fn top_files(files: &Vec<(String, u64)>) -> (res: Vec<(String, u64)>)
    ensures
        files_view(res@) == top_files_v(files_view(files@)),
{
    let ghost all = files_view(files@);
    let mut rest = copy_files(files);
    let mut out: Vec<(String, u64)> = Vec::new();
    assert(files_view(out@) + ranked(files_view(rest@)) =~= ranked(all));
    while out.len() < 5 && rest.len() > 0
        invariant
            out.len() <= 5,
            out.len() + rest.len() == all.len(),
            files_view(out@) + ranked(files_view(rest@)) == ranked(all),
        decreases rest.len(),
    {
        let ghost rv = files_view(rest@);
        let ghost ov = files_view(out@);
        let i = first_max(&rest);
        proof {
            lemma_first_max_unique(rv, i as int);
        }
        let x = rest.remove(i);
        out.push(x);
        assert(files_view(rest@) =~= rv.remove(i as int));
        assert(files_view(out@) =~= ov.push(rv[i as int]));
        assert(files_view(out@) + ranked(files_view(rest@)) =~= ov + (seq![rv[i as int]] + ranked(
            rv.remove(i as int),
        )));
    }
    if rest.len() == 0 {
        assert(ranked(files_view(rest@)) =~= Seq::<(Seq<char>, nat)>::empty());
        assert(files_view(out@) =~= ranked(all));
        assert(ranked(all).take(top_count(all.len())) =~= ranked(all));
    } else {
        assert(ranked(all).take(5) =~= files_view(out@));
    }
    out
}

/// What a churn count reports: commits, added and deleted lines, and the
/// files changed most with their changed lines.
#[derive(Debug, Clone, PartialEq, Eq)]
pub struct ChurnSummary {
    /// Commits analysed.
    pub commits: u64,
    /// Lines added.
    pub additions: u64,
    /// Lines deleted.
    pub deletions: u64,
    /// Up to five files with the most changed lines, most first.
    pub top_files: Vec<(String, u64)>,
}

/// Counts the churn in `git log --numstat` output.  The result is `None`
/// exactly when a counter would not fit in 64 bits.
pub fn churn_summary(content: &str) -> (res: Option<ChurnSummary>)
    ensures
        match res {
            Some(s) => {
                let m = churn_of(content@);
                &&& churn_fits(m)
                &&& s.commits == m.commits
                &&& s.additions == m.additions
                &&& s.deletions == m.deletions
                &&& files_view(s.top_files@) == top_files_v(m.files)
            },
            None => !churn_fits(churn_of(content@)),
        },
{
    let lines = split_lines(content);
    let ghost lv = views(lines@);
    let mut counter = ChurnCounter {
        commits: 0,
        in_commit: false,
        additions: 0,
        deletions: 0,
        files: Vec::new(),
    };
    assert(counter.model().files =~= Seq::<(Seq<char>, nat)>::empty());
    assert(lv.take(0) =~= Seq::<Seq<char>>::empty());
    let mut k: usize = 0;
    while k < lines.len()
        invariant
            k <= lines.len(),
            lv == views(lines@),
            lv == text_lines(content@),
            counter.model() == churn_fold(lv.take(k as int)),
        decreases lines.len() - k,
    {
        assert(lines@[k as int]@ == lv[k as int]);
        assert(lv.take(k + 1).drop_last() =~= lv.take(k as int));
        if !count_line(&mut counter, lines[k].as_str()) {
            proof {
                lemma_fold_grows(lv, k + 1);
                if churn_fits(churn_fold(lv)) {
                    lemma_fits_down(churn_fold(lv.take(k + 1)), churn_fold(lv));
                }
            }
            return None;
        }
        k = k + 1;
    }
    assert(lv.take(lines.len() as int) =~= lv);
    let ghost m = counter.model();
    assert forall|p: Seq<char>| #[trigger] file_count(m.files, p) <= u64::MAX by {
        lemma_file_index(m.files, p);
    }
    let top = top_files(&counter.files);
    Some(
        ChurnSummary {
            commits: counter.commits,
            additions: counter.additions,
            deletions: counter.deletions,
            top_files: top,
        },
    )
}

/// A JSON unsigned integer.
pub open spec fn uint(n: nat) -> JsonView {
    JsonView::Number(NumberView::U64(n as u64))
}

/// The JSON form of a file's changed lines.
pub open spec fn file_json_v(f: (Seq<char>, nat)) -> JsonView {
    JsonView::Object(seq![("path"@, JsonView::Str(f.0)), ("changes"@, uint(f.1))])
}

/// The JSON churn summary for the window starting at `since`.
pub open spec fn churn_json_v(
    since: Seq<char>,
    commits: nat,
    additions: nat,
    deletions: nat,
    top: Seq<(Seq<char>, nat)>,
) -> JsonView {
    JsonView::Object(
        seq![
            ("since"@, JsonView::Str(since)),
            ("commits"@, uint(commits)),
            ("files_changed"@, uint(top.len())),
            ("total_additions"@, uint(additions)),
            ("total_deletions"@, uint(deletions)),
            ("top_files"@, JsonView::Array(top.map_values(|f: (Seq<char>, nat)| file_json_v(f)))),
        ],
    )
}

/// Writes a churn summary as JSON.
pub fn churn_json(summary: &ChurnSummary, since: &str) -> (res: Json)
    ensures
        res.view() == churn_json_v(
            since@,
            summary.commits as nat,
            summary.additions as nat,
            summary.deletions as nat,
            files_view(summary.top_files@),
        ),
{
    let ghost top = files_view(summary.top_files@);
    let mut items: Vec<Json> = Vec::new();
    let mut i: usize = 0;
    while i < summary.top_files.len()
        invariant
            i <= summary.top_files.len(),
            top == files_view(summary.top_files@),
            items@.len() == i,
            forall|j: int| 0 <= j < i ==> #[trigger] items@[j].view() == file_json_v(top[j]),
        decreases summary.top_files.len() - i,
    {
        let mut e: Vec<(String, Json)> = Vec::new();
        push_entry(&mut e, "path", Json::Str(summary.top_files[i].0.clone()));
        push_entry(&mut e, "changes", Json::Number(JsonNumber::U64(summary.top_files[i].1)));
        assert(entries_view(e@) =~= seq![
            ("path"@, JsonView::Str(top[i as int].0)),
            ("changes"@, uint(top[i as int].1)),
        ]);
        let item = Json::Object(e);
        proof {
            lemma_object_view(item);
        }
        items.push(item);
        i = i + 1;
    }
    let ghost item_views = items@;
    let list = Json::Array(items);
    proof {
        lemma_array_view(list);
        assert(Seq::new(item_views.len(), |j: int| item_views[j].view()) =~= top.map_values(
            |f: (Seq<char>, nat)| file_json_v(f),
        ));
    }
    let mut e: Vec<(String, Json)> = Vec::new();
    push_entry(&mut e, "since", Json::Str(owned(since)));
    push_entry(&mut e, "commits", Json::Number(JsonNumber::U64(summary.commits)));
    push_entry(
        &mut e,
        "files_changed",
        Json::Number(JsonNumber::U64(summary.top_files.len() as u64)),
    );
    push_entry(&mut e, "total_additions", Json::Number(JsonNumber::U64(summary.additions)));
    push_entry(&mut e, "total_deletions", Json::Number(JsonNumber::U64(summary.deletions)));
    push_entry(&mut e, "top_files", list);
    let ghost expected = churn_json_v(
        since@,
        summary.commits as nat,
        summary.additions as nat,
        summary.deletions as nat,
        top,
    );
    assert(entries_view(e@) =~= expected->Object_0);
    let res = Json::Object(e);
    proof {
        lemma_object_view(res);
    }
    res
}

/// The markdown lines listing changed files.
pub open spec fn file_lines(top: Seq<(Seq<char>, nat)>) -> Seq<char>
    decreases top.len(),
{
    if top.len() == 0 {
        Seq::empty()
    } else {
        file_lines(top.drop_last()) + "- "@ + top.last().0 + ": "@ + decimal(top.last().1)
            + " lines changed\n"@
    }
}

/// The markdown churn summary.
pub open spec fn churn_markdown_v(
    commits: nat,
    additions: nat,
    deletions: nat,
    top: Seq<(Seq<char>, nat)>,
) -> Seq<char> {
    "# Git Churn Summary\n\nCommits analyzed: "@ + decimal(commits) + "\nTotal additions: "@
        + decimal(additions) + "\nTotal deletions: "@ + decimal(deletions) + "\nFiles touched: "@
        + decimal(top.len()) + "\n\n## Top files by changes\n"@ + if top.len() == 0 {
        "- No file changes in window\n"@
    } else {
        file_lines(top)
    }
}

/// Writes a churn summary as markdown.
pub fn churn_markdown(summary: &ChurnSummary) -> (res: String)
    ensures
        res@ == churn_markdown_v(
            summary.commits as nat,
            summary.additions as nat,
            summary.deletions as nat,
            files_view(summary.top_files@),
        ),
{
    let ghost top = files_view(summary.top_files@);
    let mut md = owned("# Git Churn Summary\n\nCommits analyzed: ");
    append_str(&mut md, u64_decimal(summary.commits).as_str());
    append_str(&mut md, "\nTotal additions: ");
    append_str(&mut md, u64_decimal(summary.additions).as_str());
    append_str(&mut md, "\nTotal deletions: ");
    append_str(&mut md, u64_decimal(summary.deletions).as_str());
    append_str(&mut md, "\nFiles touched: ");
    append_str(&mut md, crate::text::usize_decimal(summary.top_files.len()).as_str());
    append_str(&mut md, "\n\n## Top files by changes\n");
    if summary.top_files.len() == 0 {
        append_str(&mut md, "- No file changes in window\n");
        return md;
    }
    let ghost base = md@;
    let mut i: usize = 0;
    assert(top.take(0) =~= Seq::<(Seq<char>, nat)>::empty());
    while i < summary.top_files.len()
        invariant
            i <= summary.top_files.len(),
            top == files_view(summary.top_files@),
            md@ == base + file_lines(top.take(i as int)),
        decreases summary.top_files.len() - i,
    {
        append_str(&mut md, "- ");
        append_str(&mut md, summary.top_files[i].0.as_str());
        append_str(&mut md, ": ");
        append_str(&mut md, u64_decimal(summary.top_files[i].1).as_str());
        append_str(&mut md, " lines changed\n");
        assert(top.take(i + 1).drop_last() =~= top.take(i as int));
        i = i + 1;
    }
    assert(top.take(top.len() as int) =~= top);
    md
}

} // verus!
