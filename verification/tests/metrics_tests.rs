use rustymcp::metrics::CodeMetrics;

#[test]
fn records_documents_and_chunks() {
    let mut metrics = CodeMetrics::new();
    metrics.record_document(2, 128);
    metrics.record_document(3, 256);

    let snapshot = metrics.snapshot();
    assert_eq!(snapshot.documents_indexed, 2);
    assert_eq!(snapshot.chunks_indexed, 5);
    assert_eq!(snapshot.last_chunk_size, Some(256));
}

#[test]
fn snapshot_is_consistent() {
    let metrics = CodeMetrics::new();
    assert_eq!(metrics.snapshot().documents_indexed, 0);
    assert_eq!(metrics.snapshot().chunks_indexed, 0);
    assert_eq!(metrics.snapshot().last_chunk_size, None);
}

#[test]
fn snapshot_reports_latest_chunk_size_after_recording() {
    let mut metrics = CodeMetrics::new();
    metrics.record_document(4, 512);
    let snapshot = metrics.snapshot();
    assert_eq!(snapshot.last_chunk_size, Some(512));
    assert_eq!(snapshot.documents_indexed, 1);
}

#[test]
fn zero_chunk_size_is_reported_as_absent() {
    let mut metrics = CodeMetrics::new();
    metrics.record_document(1, 0);
    assert_eq!(metrics.snapshot().last_chunk_size, None);
    assert_eq!(metrics.snapshot().documents_indexed, 1);
}

#[test]
fn counters_wrap_on_overflow() {
    let mut metrics = CodeMetrics::new();
    metrics.record_document(u64::MAX, 8);
    metrics.record_document(2, 8);
    assert_eq!(metrics.snapshot().chunks_indexed, 1);
}

#[test]
fn snapshot_after_a_run_of_recordings() {
    let mut metrics = CodeMetrics::new();
    let recordings = [(2u64, 128u64), (0, 64), (5, 512), (1, 0)];
    for (count, size) in recordings {
        metrics.record_document(count, size);
    }
    let first = metrics.snapshot();
    assert_eq!(first.documents_indexed, 4);
    assert_eq!(first.chunks_indexed, 8);
    assert_eq!(first.last_chunk_size, None);
    assert_eq!(metrics.snapshot(), first);
    metrics.record_document(3, 256);
    assert_eq!(metrics.snapshot().last_chunk_size, Some(256));
    assert_eq!(metrics.snapshot().chunks_indexed, 11);
}
