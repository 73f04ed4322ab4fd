//! Reports the metrics tooling writes from the outputs of code-quality tools:
//! unsafe-code counts, line counts, line coverage and git churn.
use crate::json::{get_key, lookup, Json, JsonNumber, JsonView, NumberView};
use crate::text::{
    append_str, chars_of, decimal, has_prefix, has_suffix, matches_at, owned, string_of_range, views,
};
use crate::json::u64_decimal;
use vstd::prelude::*;

verus! {

/// Heading of the unsafe-code report.
pub const GEIGER_HEADING: &'static str = "# Unsafe Code Report\n\n";

/// Where the JSON report starts inside the output of `cargo geiger`.
pub const GEIGER_PAYLOAD_MARKER: &'static str = "{\"packages\"";

/// Whether `pattern` occurs in `s` at `i`.
pub open spec fn occurs_at(s: Seq<char>, pattern: Seq<char>, i: int) -> bool {
    0 <= i && i + pattern.len() <= s.len() && s.subrange(i, i + pattern.len()) == pattern
}

/// Whether `i` is the first position where `pattern` occurs in `s`.
pub open spec fn first_occurrence(s: Seq<char>, pattern: Seq<char>, i: int) -> bool {
    occurs_at(s, pattern, i) && forall|k: int| 0 <= k < i ==> !#[trigger] occurs_at(s, pattern, k)
}

/// The JSON report inside the output of `cargo geiger`: the text from the first
/// occurrence of the `{"packages"` marker on, or `None` when there is none.
pub fn geiger_payload(raw: &str) -> (res: Option<String>)
    ensures
        match res {
            Some(p) => exists|i: int|
                first_occurrence(raw@, GEIGER_PAYLOAD_MARKER@, i) && #[trigger] raw@.skip(i) == p@,
            None => forall|i: int| !#[trigger] occurs_at(raw@, GEIGER_PAYLOAD_MARKER@, i),
        },
{
    let x = chars_of(raw);
    let y = chars_of(GEIGER_PAYLOAD_MARKER);
    if y.len() > x.len() {
        return None;
    }
    let limit = x.len() - y.len();
    let mut i: usize = 0;
    loop
        invariant
            x@ == raw@,
            y@ == GEIGER_PAYLOAD_MARKER@,
            y.len() <= x.len(),
            limit == x.len() - y.len(),
            i <= limit,
            forall|k: int| 0 <= k < i ==> !#[trigger] occurs_at(raw@, GEIGER_PAYLOAD_MARKER@, k),
        decreases limit - i,
    {
        if matches_at(&x, &y, i) {
            let p = string_of_range(&x, i, x.len());
            assert(raw@.skip(i as int) =~= p@);
            assert(first_occurrence(raw@, GEIGER_PAYLOAD_MARKER@, i as int));
            return Some(p);
        }
        if i == limit {
            return None;
        }
        i = i + 1;
    }
}

/// Counts of one kind of item, as `cargo geiger` reports them.
#[derive(Debug, Clone, Copy, PartialEq, Eq, Default)]
pub struct CountEntry {
    /// Items that use `unsafe`.
    pub unsafe_count: Option<u64>,
    /// Items that do not.
    pub safe: Option<u64>,
}

/// Counts per kind of item.
#[derive(Debug, Clone, Copy, PartialEq, Eq, Default)]
pub struct UnsafetyCounts {
    /// Functions.
    pub functions: CountEntry,
    /// Methods.
    pub methods: CountEntry,
    /// Impl blocks.
    pub item_impls: CountEntry,
    /// Traits.
    pub item_traits: CountEntry,
    /// Expressions.
    pub exprs: CountEntry,
}

/// The counts `cargo geiger` gives for one package.
#[derive(Debug, Clone, PartialEq, Eq)]
pub struct PackageEntry {
    /// Package name.
    pub name: String,
    /// Counts over the code the build uses.
    pub used: UnsafetyCounts,
    /// Counts over the code it does not use.
    pub unused: UnsafetyCounts,
}

/// The parts of a `cargo geiger` report the summary reads.
#[derive(Debug, Clone, PartialEq, Eq)]
pub struct GeigerReport {
    /// Packages, in report order.
    pub packages: Vec<PackageEntry>,
    /// Files the scan skipped.
    pub used_but_not_scanned_files: Vec<String>,
}

/// A reported count, zero when absent.
pub open spec fn count_or_zero(c: Option<u64>) -> nat {
    match c {
        Some(n) => n as nat,
        None => 0,
    }
}

fn count_value(c: Option<u64>) -> (res: u64)
    ensures
        res as nat == count_or_zero(c),
{
    match c {
        Some(n) => n,
        None => 0,
    }
}

/// The table rows of a package: a title with the counts in use and not in use.
pub open spec fn unsafety_rows(used: UnsafetyCounts, unused: UnsafetyCounts) -> Seq<
    (Seq<char>, CountEntry, CountEntry),
> {
    seq![
        ("Functions"@, used.functions, unused.functions),
        ("Methods"@, used.methods, unused.methods),
        ("Impls"@, used.item_impls, unused.item_impls),
        ("Traits"@, used.item_traits, unused.item_traits),
        ("Expressions"@, used.exprs, unused.exprs),
    ]
}

/// One table row: unsafe and safe items in use, unsafe items not in use.
pub open spec fn row_text(title: Seq<char>, used: CountEntry, unused: CountEntry) -> Seq<char> {
    "| "@ + title + " | "@ + decimal(count_or_zero(used.unsafe_count)) + " | "@ + decimal(
        count_or_zero(used.safe),
    ) + " | "@ + decimal(count_or_zero(unused.unsafe_count)) + " |\n"@
}

/// The table rows, one line each.
pub open spec fn rows_text(rows: Seq<(Seq<char>, CountEntry, CountEntry)>) -> Seq<char>
    decreases rows.len(),
{
    if rows.len() == 0 {
        Seq::empty()
    } else {
        rows_text(rows.drop_last()) + row_text(rows.last().0, rows.last().1, rows.last().2)
    }
}

/// Whether no row counts an unsafe item, in use or not.
pub open spec fn rows_clean(rows: Seq<(Seq<char>, CountEntry, CountEntry)>) -> bool {
    forall|i: int|
        0 <= i < rows.len() ==> count_or_zero((#[trigger] rows[i]).1.unsafe_count) == 0
            && count_or_zero(rows[i].2.unsafe_count) == 0
}

/// The summary of the package that matched.
pub open spec fn package_section(name: Seq<char>, used: UnsafetyCounts, unused: UnsafetyCounts) -> Seq<
    char,
> {
    let rows = unsafety_rows(used, unused);
    "Summary for crate `"@ + name + "` (includes tests):\n\n"@
        + "| Item | Used unsafe | Used safe | Unused unsafe |\n"@ + "| --- | --- | --- | --- |\n"@
        + rows_text(rows) + "\n"@ + if rows_clean(rows) {
        "No unsafe code detected in the crate or its tests.\n"@
    } else {
        "Unsafe code detected. Review the table above for counts.\n"@
    }
}

/// Whether every used and every unused unsafe count of a package is zero
/// (an absent count counts as zero).
pub open spec fn no_unsafe_counted(used: UnsafetyCounts, unused: UnsafetyCounts) -> bool {
    &&& count_or_zero(used.functions.unsafe_count) == 0
    &&& count_or_zero(used.methods.unsafe_count) == 0
    &&& count_or_zero(used.item_impls.unsafe_count) == 0
    &&& count_or_zero(used.item_traits.unsafe_count) == 0
    &&& count_or_zero(used.exprs.unsafe_count) == 0
    &&& count_or_zero(unused.functions.unsafe_count) == 0
    &&& count_or_zero(unused.methods.unsafe_count) == 0
    &&& count_or_zero(unused.item_impls.unsafe_count) == 0
    &&& count_or_zero(unused.item_traits.unsafe_count) == 0
    &&& count_or_zero(unused.exprs.unsafe_count) == 0
}

/// The package summary says no unsafe code was detected exactly when no unsafe
/// item is counted, in use or not; otherwise it says unsafe code was detected.
pub proof fn lemma_geiger_verdict(name: Seq<char>, used: UnsafetyCounts, unused: UnsafetyCounts)
    ensures
        no_unsafe_counted(used, unused) ==> has_suffix(
            package_section(name, used, unused),
            "No unsafe code detected in the crate or its tests.\n"@,
        ),
        !no_unsafe_counted(used, unused) ==> has_suffix(
            package_section(name, used, unused),
            "Unsafe code detected. Review the table above for counts.\n"@,
        ) && !has_suffix(
            package_section(name, used, unused),
            "No unsafe code detected in the crate or its tests.\n"@,
        ),
{
    let rows = unsafety_rows(used, unused);
    assert(rows_clean(rows) <==> no_unsafe_counted(used, unused)) by {
        if !no_unsafe_counted(used, unused) {
            if count_or_zero(used.functions.unsafe_count) != 0 || count_or_zero(unused.functions.unsafe_count) != 0 {
                assert(rows[0].1 == used.functions && rows[0].2 == unused.functions);
            } else if count_or_zero(used.methods.unsafe_count) != 0 || count_or_zero(unused.methods.unsafe_count) != 0 {
                assert(rows[1].1 == used.methods && rows[1].2 == unused.methods);
            } else if count_or_zero(used.item_impls.unsafe_count) != 0 || count_or_zero(unused.item_impls.unsafe_count) != 0 {
                assert(rows[2].1 == used.item_impls && rows[2].2 == unused.item_impls);
            } else if count_or_zero(used.item_traits.unsafe_count) != 0 || count_or_zero(unused.item_traits.unsafe_count) != 0 {
                assert(rows[3].1 == used.item_traits && rows[3].2 == unused.item_traits);
            } else {
                assert(rows[4].1 == used.exprs && rows[4].2 == unused.exprs);
            }
        }
    }
    let head = "Summary for crate `"@ + name + "` (includes tests):\n\n"@
        + "| Item | Used unsafe | Used safe | Unused unsafe |\n"@ + "| --- | --- | --- | --- |\n"@
        + rows_text(rows) + "\n"@;
    let yes = "No unsafe code detected in the crate or its tests.\n"@;
    let no = "Unsafe code detected. Review the table above for counts.\n"@;
    let sec = package_section(name, used, unused);
    if rows_clean(rows) {
        assert(sec == head + yes);
        assert(sec.skip(sec.len() - yes.len()) =~= yes);
    } else {
        assert(sec == head + no);
        assert(sec.skip(sec.len() - no.len()) =~= no);
        reveal_strlit("No unsafe code detected in the crate or its tests.\n");
        reveal_strlit("Unsafe code detected. Review the table above for counts.\n");
        if has_suffix(sec, yes) {
            assert(sec[sec.len() - 5] == yes[yes.len() - 5]);
            assert(sec[sec.len() - 5] == no[no.len() - 5]);
        }
    }
}

/// Bullet lines, one per entry.
pub open spec fn bullet_lines(entries: Seq<Seq<char>>) -> Seq<char>
    decreases entries.len(),
{
    if entries.len() == 0 {
        Seq::empty()
    } else {
        bullet_lines(entries.drop_last()) + "- "@ + entries.last() + "\n"@
    }
}

/// The note on skipped files: nothing when none were skipped, else the first
/// five of them.
pub open spec fn skipped_section(files: Seq<Seq<char>>) -> Seq<char> {
    if files.len() == 0 {
        Seq::empty()
    } else {
        "\n`cargo geiger` skipped dependency files (build scripts, generated code, etc.).\n"@
            + "First few entries:\n"@ + bullet_lines(
            files.take(if files.len() < 5 {
                files.len() as int
            } else {
                5
            }),
        )
    }
}

/// Whether `i` is the first package named `name`.
pub open spec fn first_package(packages: Seq<PackageEntry>, name: Seq<char>, i: int) -> bool {
    0 <= i < packages.len() && packages[i].name@ == name && forall|k: int|
        0 <= k < i ==> (#[trigger] packages[k]).name@ != name
}

/// The unsafe-code report on the crate named `crate_name`.
pub open spec fn geiger_markdown_v(report: GeigerReport, crate_name: Seq<char>) -> Seq<char> {
    let packages = report.packages@;
    GEIGER_HEADING@ + (if exists|i: int| first_package(packages, crate_name, i) {
        let i = choose|i: int| first_package(packages, crate_name, i);
        package_section(crate_name, packages[i].used, packages[i].unused)
    } else {
        "No entry for the crate found in geiger output.\n"@
    }) + skipped_section(views(report.used_but_not_scanned_files@))
}

fn push_row(out: &mut String, title: &str, used: CountEntry, unused: CountEntry)
    ensures
        final(out)@ == old(out)@ + row_text(title@, used, unused),
{
    append_str(out, "| ");
    append_str(out, title);
    append_str(out, " | ");
    append_str(out, u64_decimal(count_value(used.unsafe_count)).as_str());
    append_str(out, " | ");
    append_str(out, u64_decimal(count_value(used.safe)).as_str());
    append_str(out, " | ");
    append_str(out, u64_decimal(count_value(unused.unsafe_count)).as_str());
    append_str(out, " |\n");
    assert(final(out)@ =~= old(out)@ + row_text(title@, used, unused));
}

fn clean(used: CountEntry, unused: CountEntry) -> (res: bool)
    ensures
        res == (count_or_zero(used.unsafe_count) == 0 && count_or_zero(unused.unsafe_count) == 0),
{
    count_value(used.unsafe_count) == 0 && count_value(unused.unsafe_count) == 0
}

proof fn lemma_rows_text_push(rows: Seq<(Seq<char>, CountEntry, CountEntry)>, r: (
    Seq<char>,
    CountEntry,
    CountEntry,
))
    ensures
        rows_text(rows.push(r)) == rows_text(rows) + row_text(r.0, r.1, r.2),
{
    assert(rows.push(r).drop_last() =~= rows);
}

fn write_rows(out: &mut String, used: UnsafetyCounts, unused: UnsafetyCounts)
    ensures
        final(out)@ == old(out)@ + rows_text(unsafety_rows(used, unused)),
{
    let ghost rows = unsafety_rows(used, unused);
    proof {
        assert(rows.take(0) =~= Seq::empty());
        lemma_rows_text_push(rows.take(0), rows[0]);
        assert(rows.take(1) =~= rows.take(0).push(rows[0]));
        lemma_rows_text_push(rows.take(1), rows[1]);
        assert(rows.take(2) =~= rows.take(1).push(rows[1]));
        lemma_rows_text_push(rows.take(2), rows[2]);
        assert(rows.take(3) =~= rows.take(2).push(rows[2]));
        lemma_rows_text_push(rows.take(3), rows[3]);
        assert(rows.take(4) =~= rows.take(3).push(rows[3]));
        lemma_rows_text_push(rows.take(4), rows[4]);
        assert(rows =~= rows.take(4).push(rows[4]));
    }
    push_row(out, "Functions", used.functions, unused.functions);
    assert(out@ =~= old(out)@ + rows_text(rows.take(1)));
    push_row(out, "Methods", used.methods, unused.methods);
    assert(out@ =~= old(out)@ + rows_text(rows.take(2)));
    push_row(out, "Impls", used.item_impls, unused.item_impls);
    assert(out@ =~= old(out)@ + rows_text(rows.take(3)));
    push_row(out, "Traits", used.item_traits, unused.item_traits);
    assert(out@ =~= old(out)@ + rows_text(rows.take(4)));
    push_row(out, "Expressions", used.exprs, unused.exprs);
    assert(out@ =~= old(out)@ + rows_text(rows));
}

fn all_rows_clean(used: UnsafetyCounts, unused: UnsafetyCounts) -> (res: bool)
    ensures
        res == rows_clean(unsafety_rows(used, unused)),
{
    let ghost rows = unsafety_rows(used, unused);
    let res = clean(used.functions, unused.functions) && clean(used.methods, unused.methods)
        && clean(used.item_impls, unused.item_impls) && clean(used.item_traits, unused.item_traits)
        && clean(used.exprs, unused.exprs);
    proof {
        if !res && rows_clean(rows) {
            assert(rows[0].0 == "Functions"@);
            assert(rows[1].0 == "Methods"@);
            assert(rows[2].0 == "Impls"@);
            assert(rows[3].0 == "Traits"@);
            assert(rows[4].0 == "Expressions"@);
        }
    }
    res
}

fn write_package_section(out: &mut String, name: &str, used: UnsafetyCounts, unused: UnsafetyCounts)
    ensures
        final(out)@ == old(out)@ + package_section(name@, used, unused),
{
    append_str(out, "Summary for crate `");
    append_str(out, name);
    append_str(out, "` (includes tests):\n\n");
    append_str(out, "| Item | Used unsafe | Used safe | Unused unsafe |\n");
    append_str(out, "| --- | --- | --- | --- |\n");
    write_rows(out, used, unused);
    append_str(out, "\n");
    if all_rows_clean(used, unused) {
        append_str(out, "No unsafe code detected in the crate or its tests.\n");
    } else {
        append_str(out, "Unsafe code detected. Review the table above for counts.\n");
    }
    assert(final(out)@ =~= old(out)@ + package_section(name@, used, unused));
}

fn write_skipped_section(out: &mut String, files: &Vec<String>)
    ensures
        final(out)@ == old(out)@ + skipped_section(views(files@)),
{
    let ghost fv = views(files@);
    if files.len() == 0 {
        assert(out@ =~= old(out)@ + skipped_section(fv));
        return;
    }
    append_str(out, "\n`cargo geiger` skipped dependency files (build scripts, generated code, etc.).\n");
    append_str(out, "First few entries:\n");
    let ghost base = out@;
    let n: usize = if files.len() < 5 {
        files.len()
    } else {
        5
    };
    let mut i: usize = 0;
    while i < n
        invariant
            i <= n <= files.len(),
            fv == views(files@),
            out@ == base + bullet_lines(fv.take(i as int)),
        decreases n - i,
    {
        append_str(out, "- ");
        append_str(out, files[i].as_str());
        append_str(out, "\n");
        assert(fv.take(i + 1).drop_last() =~= fv.take(i as int));
        assert(fv[i as int] == files@[i as int]@);
        i = i + 1;
    }
    assert(out@ =~= old(out)@ + skipped_section(fv));
}

fn find_package(packages: &Vec<PackageEntry>, name: &str) -> (res: Option<usize>)
    ensures
        match res {
            Some(k) => first_package(packages@, name@, k as int),
            None => forall|k: int| 0 <= k < packages@.len() ==> (#[trigger] packages@[k]).name@ != name@,
        },
{
    let mut i: usize = 0;
    while i < packages.len()
        invariant
            i <= packages.len(),
            forall|k: int| 0 <= k < i ==> (#[trigger] packages@[k]).name@ != name@,
        decreases packages.len() - i,
    {
        if crate::text::str_eq(packages[i].name.as_str(), name) {
            return Some(i);
        }
        i = i + 1;
    }
    None
}

/// Writes the unsafe-code report on the crate named `crate_name`: its table of
/// counts when the report has a package of that name (the first such), and the
/// first five skipped files when the scan skipped any.
pub fn geiger_markdown(report: &GeigerReport, crate_name: &str) -> (res: String)
    ensures
        res@ == geiger_markdown_v(*report, crate_name@),
{
    let mut out = owned(GEIGER_HEADING);
    let found = find_package(&report.packages, crate_name);
    let ghost packages = report.packages@;
    match found {
        Some(k) => {
            assert(first_package(packages, crate_name@, k as int));
            proof {
                let c = choose|j: int| first_package(packages, crate_name@, j);
                assert(c == k as int) by {
                    if c < k {
                        assert(packages[c].name@ != crate_name@);
                    }
                    if k < c {
                        assert(packages[k as int].name@ != crate_name@);
                    }
                }
            }
            let pkg = &report.packages[k];
            write_package_section(&mut out, crate_name, pkg.used, pkg.unused);
        },
        None => {
            assert(!exists|j: int| first_package(packages, crate_name@, j)) by {
                if exists|j: int| first_package(packages, crate_name@, j) {
                    let j = choose|j: int| first_package(packages, crate_name@, j);
                    assert(packages[j].name@ != crate_name@);
                }
            }
            append_str(&mut out, "No entry for the crate found in geiger output.\n");
        },
    }
    write_skipped_section(&mut out, &report.used_but_not_scanned_files);
    out
}

/// The value of `key` in an object; `None` for other values.
pub open spec fn member(v: JsonView, key: Seq<char>) -> Option<JsonView> {
    match v {
        JsonView::Object(entries) => lookup(entries, key),
        _ => None,
    }
}

fn member_of<'a>(v: &'a Json, key: &str) -> (res: Option<&'a Json>)
    ensures
        match res {
            Some(m) => member(v.view(), key@) == Some(m.view()),
            None => member(v.view(), key@) is None,
        },
{
    match v {
        Json::Object(entries) => {
            proof {
                crate::json::lemma_object_view(*v);
            }
            get_key(entries, key)
        },
        _ => None,
    }
}

/// A value as an unsigned integer: a non-negative integer number.
pub open spec fn as_u64_v(v: JsonView) -> Option<u64> {
    match v {
        JsonView::Number(NumberView::U64(n)) => Some(n),
        JsonView::Number(NumberView::I64(n)) => if n >= 0 {
            Some(n as u64)
        } else {
            None
        },
        _ => None,
    }
}

fn as_u64(v: &Json) -> (res: Option<u64>)
    ensures
        res == as_u64_v(v.view()),
{
    match v {
        Json::Number(JsonNumber::U64(n)) => Some(*n),
        Json::Number(JsonNumber::I64(n)) => if *n >= 0 {
            Some(*n as u64)
        } else {
            None
        },
        _ => None,
    }
}

/// A count of a tool's report: the unsigned integer under `key`, zero when it
/// is absent or not one.
pub open spec fn count_field(v: JsonView, key: Seq<char>) -> nat {
    match member(v, key) {
        Some(m) => match as_u64_v(m) {
            Some(n) => n as nat,
            None => 0,
        },
        None => 0,
    }
}

fn count_of(v: &Json, key: &str) -> (res: u64)
    ensures
        res as nat == count_field(v.view(), key@),
{
    match member_of(v, key) {
        Some(m) => match as_u64(m) {
            Some(n) => n,
            None => 0,
        },
        None => 0,
    }
}

/// The line-count summary.
pub open spec fn tokei_text(code: nat, comments: nat, blanks: nat) -> Seq<char> {
    "Rust LOC: "@ + decimal(code) + "\nComments: "@ + decimal(comments) + "\nBlanks: "@ + decimal(
        blanks,
    ) + "\n"@
}

/// Summarises a `tokei` report: the code, comment and blank line counts of its
/// `Rust` entry; `None` when the report has no such entry.
pub fn tokei_summary(report: &Json) -> (res: Option<String>)
    ensures
        match member(report.view(), "Rust"@) {
            Some(rust) => res matches Some(t) && t@ == tokei_text(
                count_field(rust, "code"@),
                count_field(rust, "comments"@),
                count_field(rust, "blanks"@),
            ),
            None => res is None,
        },
{
    match member_of(report, "Rust") {
        Some(rust) => {
            let mut t = owned("Rust LOC: ");
            append_str(&mut t, u64_decimal(count_of(rust, "code")).as_str());
            append_str(&mut t, "\nComments: ");
            append_str(&mut t, u64_decimal(count_of(rust, "comments")).as_str());
            append_str(&mut t, "\nBlanks: ");
            append_str(&mut t, u64_decimal(count_of(rust, "blanks")).as_str());
            append_str(&mut t, "\n");
            Some(t)
        },
        None => None,
    }
}

/// The totals of a coverage report: its `total` entry, or else the `totals` of
/// the first item of its `data` array.
pub open spec fn coverage_totals(report: JsonView) -> Option<JsonView> {
    match member(report, "total"@) {
        Some(t) => Some(t),
        None => match member(report, "data"@) {
            Some(JsonView::Array(items)) => if items.len() > 0 {
                member(items[0], "totals"@)
            } else {
                None
            },
            _ => None,
        },
    }
}

/// The line coverage percentage of a coverage report, when it gives one.
pub open spec fn coverage_percent_v(report: JsonView) -> Option<NumberView> {
    match coverage_totals(report) {
        Some(totals) => match member(totals, "lines"@) {
            Some(lines) => match member(lines, "percent"@) {
                Some(JsonView::Number(n)) => Some(n),
                _ => None,
            },
            None => None,
        },
        None => None,
    }
}

fn number_copy(n: &JsonNumber) -> (res: JsonNumber)
    ensures
        res.view() == n.view(),
{
    match n {
        JsonNumber::U64(v) => JsonNumber::U64(*v),
        JsonNumber::I64(v) => JsonNumber::I64(*v),
        JsonNumber::Float(t) => JsonNumber::Float(t.clone()),
    }
}

/// Finds the line coverage percentage in a coverage report.
pub fn coverage_percent(report: &Json) -> (res: Option<JsonNumber>)
    ensures
        match res {
            Some(n) => coverage_percent_v(report.view()) == Some(n.view()),
            None => coverage_percent_v(report.view()) is None,
        },
{
    let totals = match member_of(report, "total") {
        Some(t) => Some(t),
        None => match member_of(report, "data") {
            Some(data) => match data {
                Json::Array(items) => {
                    proof {
                        crate::json::lemma_array_view(*data);
                    }
                    if items.len() > 0 {
                        member_of(&items[0], "totals")
                    } else {
                        None
                    }
                },
                _ => None,
            },
            None => None,
        },
    };
    match totals {
        Some(t) => match member_of(t, "lines") {
            Some(lines) => match member_of(lines, "percent") {
                Some(Json::Number(n)) => Some(number_copy(n)),
                _ => None,
            },
            None => None,
        },
        None => None,
    }
}

} // verus!
