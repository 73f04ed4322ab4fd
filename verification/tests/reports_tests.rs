use rustymcp::churn::{churn_json, churn_markdown, churn_summary, split_lines, split_on};
use rustymcp::json::{get_key, Json, JsonNumber};
use rustymcp::reports::{
    coverage_percent, geiger_markdown, geiger_payload, tokei_summary, CountEntry, GeigerReport,
    PackageEntry, UnsafetyCounts,
};

fn obj(entries: Vec<(&str, Json)>) -> Json {
    Json::Object(entries.into_iter().map(|(k, v)| (k.to_string(), v)).collect())
}

fn uint(n: u64) -> Json {
    Json::Number(JsonNumber::U64(n))
}

const LOG: &str = "commit:abc:2024-01-01\n3\t1\tsrc/a.rs\n-\t-\tlogo.png\n10\t0\tsrc/b.rs\n\ncommit:def:2024-01-02\n2\t2\tsrc/a.rs\n";

#[test]
fn churn_counts_commits_lines_and_files() {
    let summary = churn_summary(LOG).expect("fits");
    assert_eq!(summary.commits, 2);
    assert_eq!(summary.additions, 15);
    assert_eq!(summary.deletions, 3);
    assert_eq!(
        summary.top_files,
        vec![("src/b.rs".to_string(), 10), ("src/a.rs".to_string(), 8)]
    );
}

#[test]
fn churn_ignores_lines_before_the_first_commit() {
    let summary = churn_summary("5\t5\tx.rs\ncommit:1\n").expect("fits");
    assert_eq!(summary.commits, 1);
    assert_eq!(summary.additions, 0);
    assert!(summary.top_files.is_empty());
}

#[test]
fn churn_lists_at_most_five_files_largest_first() {
    let mut log = String::from("commit:x\n");
    for (i, n) in [4u64, 9, 1, 7, 3, 8, 2].iter().enumerate() {
        log.push_str(&format!("{}\t0\tf{}\n", n, i));
    }
    let summary = churn_summary(&log).expect("fits");
    let counts: Vec<u64> = summary.top_files.iter().map(|f| f.1).collect();
    assert_eq!(counts, vec![9, 8, 7, 4, 3]);
}

#[test]
fn churn_overflow_is_reported() {
    let log = "commit:x\n18446744073709551615\t0\ta\n1\t0\tb\n";
    assert!(churn_summary(log).is_none());
}

#[test]
fn churn_outputs_json_and_markdown() {
    let summary = churn_summary(LOG).expect("fits");
    let json = churn_json(&summary, "30 days ago");
    let entries = match &json {
        Json::Object(e) => e,
        other => panic!("object expected, got {:?}", other),
    };
    assert_eq!(get_key(entries, "since"), Some(&Json::Str("30 days ago".to_string())));
    assert_eq!(get_key(entries, "files_changed"), Some(&uint(2)));
    assert_eq!(get_key(entries, "total_additions"), Some(&uint(15)));
    let md = churn_markdown(&summary);
    assert_eq!(
        md,
        "# Git Churn Summary\n\nCommits analyzed: 2\nTotal additions: 15\nTotal deletions: 3\nFiles touched: 2\n\n## Top files by changes\n- src/b.rs: 10 lines changed\n- src/a.rs: 8 lines changed\n"
    );
    let empty = churn_summary("").expect("fits");
    assert!(churn_markdown(&empty).ends_with("- No file changes in window\n"));
}

#[test]
fn lines_follow_str_lines() {
    assert_eq!(split_lines("a\r\nb\n\nc"), vec!["a", "b", "", "c"]);
    assert_eq!(split_lines("a\n"), vec!["a"]);
    assert!(split_lines("").is_empty());
    assert_eq!(split_on("1\t2\tpath", '\t'), vec!["1", "2", "path"]);
}

fn entry(unsafe_count: u64, safe: u64) -> CountEntry {
    CountEntry { unsafe_count: Some(unsafe_count), safe: Some(safe) }
}

fn counts(unsafe_count: u64) -> UnsafetyCounts {
    UnsafetyCounts {
        functions: entry(unsafe_count, 5),
        methods: entry(0, 2),
        item_impls: CountEntry::default(),
        item_traits: CountEntry::default(),
        exprs: entry(0, 40),
    }
}

#[test]
fn geiger_report_tables_the_named_crate() {
    let report = GeigerReport {
        packages: vec![
            PackageEntry { name: "other".to_string(), used: counts(3), unused: counts(0) },
            PackageEntry { name: "rusty-mem".to_string(), used: counts(0), unused: counts(0) },
        ],
        used_but_not_scanned_files: vec![],
    };
    let md = geiger_markdown(&report, "rusty-mem");
    assert_eq!(
        md,
        "# Unsafe Code Report\n\nSummary for crate `rusty-mem` (includes tests):\n\n| Item | Used unsafe | Used safe | Unused unsafe |\n| --- | --- | --- | --- |\n| Functions | 0 | 5 | 0 |\n| Methods | 0 | 2 | 0 |\n| Impls | 0 | 0 | 0 |\n| Traits | 0 | 0 | 0 |\n| Expressions | 0 | 40 | 0 |\n\nNo unsafe code detected in the crate or its tests.\n"
    );
    let flagged = geiger_markdown(&report, "other");
    assert!(flagged.ends_with("Unsafe code detected. Review the table above for counts.\n"));
}

#[test]
fn geiger_report_without_the_crate_lists_skipped_files() {
    let files: Vec<String> = (1..=7).map(|i| format!("build{}.rs", i)).collect();
    let report = GeigerReport { packages: vec![], used_but_not_scanned_files: files };
    let md = geiger_markdown(&report, "rusty-mem");
    assert!(md.starts_with("# Unsafe Code Report\n\nNo entry for the crate found in geiger output.\n"));
    assert!(md.contains("First few entries:\n- build1.rs\n"));
    assert!(md.ends_with("- build5.rs\n"));
    assert!(!md.contains("build6.rs"));
}

#[test]
fn geiger_payload_starts_at_the_packages_marker() {
    let raw = "warning: noise\n{\"packages\": []}";
    assert_eq!(geiger_payload(raw), Some("{\"packages\": []}".to_string()));
    assert_eq!(geiger_payload("no json here"), None);
}

#[test]
fn tokei_summary_reads_rust_counts() {
    let report = obj(vec![(
        "Rust",
        obj(vec![("code", uint(120)), ("comments", uint(30)), ("blanks", Json::Null)]),
    )]);
    assert_eq!(
        tokei_summary(&report),
        Some("Rust LOC: 120\nComments: 30\nBlanks: 0\n".to_string())
    );
    assert_eq!(tokei_summary(&obj(vec![("Python", obj(vec![]))])), None);
}

#[test]
fn coverage_percent_prefers_total_then_first_data_totals() {
    let pct = |n: &str| obj(vec![("lines", obj(vec![("percent", Json::Number(JsonNumber::Float(n.to_string())))]))]);
    let direct = obj(vec![("total", pct("81.5"))]);
    assert_eq!(coverage_percent(&direct), Some(JsonNumber::Float("81.5".to_string())));
    let nested = obj(vec![("data", Json::Array(vec![obj(vec![("totals", pct("64.25"))])]))]);
    assert_eq!(coverage_percent(&nested), Some(JsonNumber::Float("64.25".to_string())));
    assert_eq!(coverage_percent(&obj(vec![])), None);
}
