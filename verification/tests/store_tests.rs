use xml_service::status::{ChunkStatus, JobStatus};
use xml_service::store::CounterStore;
use xml_service::tracker::{Counter, JobCounters, StoreReply, StoreRequest};

#[test]
fn unknown_job_has_no_counters() {
    let store = CounterStore::new();
    assert_eq!(store.counters("nobody"), JobCounters { processed: None, total: None, errors: None });
}

#[test]
fn requests_touch_their_own_job_only() {
    let mut store = CounterStore::new();
    store.announce("a", 2);
    store.announce("b", 5);
    assert_eq!(store.execute("a", StoreRequest::Increment(Counter::Processed)), StoreReply::Count(1));
    assert_eq!(store.execute("a", StoreRequest::Increment(Counter::Errors)), StoreReply::Count(1));
    assert_eq!(store.execute("b", StoreRequest::Read(Counter::Processed)), StoreReply::Value(None));
    assert_eq!(store.execute("b", StoreRequest::Read(Counter::Total)), StoreReply::Value(Some(5)));
    assert_eq!(store.execute("a", StoreRequest::DeleteAll), StoreReply::Deleted);
    assert!(store.counters("a").is_empty());
    assert_eq!(store.counters("b"), JobCounters { processed: None, total: Some(5), errors: None });
    assert_eq!(store.execute("a", StoreRequest::Increment(Counter::Processed)), StoreReply::Count(1));
    assert_eq!(store.counters("a"), JobCounters { processed: Some(1), total: None, errors: None });
}

#[test]
fn announcing_again_replaces_the_total() {
    let mut store = CounterStore::new();
    store.announce("a", 2);
    assert_eq!(store.complete_chunk("a", ChunkStatus::Success), None);
    store.announce("a", 3);
    assert_eq!(store.counters("a"), JobCounters { processed: Some(1), total: Some(3), errors: None });
}

#[test]
fn jobs_complete_independently() {
    let mut store = CounterStore::new();
    store.announce("first", 3);
    store.announce("second", 1);
    assert_eq!(store.complete_chunk("first", ChunkStatus::Success), None);
    assert_eq!(store.complete_chunk("second", ChunkStatus::Success), Some(JobStatus::Success));
    assert_eq!(store.complete_chunk("first", ChunkStatus::ValidationError), None);
    assert_eq!(store.counters("first"), JobCounters { processed: Some(2), total: Some(3), errors: Some(1) });
    assert_eq!(
        store.complete_chunk("first", ChunkStatus::Success),
        Some(JobStatus::CompletedWithErrors)
    );
    assert!(store.counters("first").is_empty());
    assert!(store.counters("second").is_empty());
    assert_eq!(store.complete_chunk("unannounced", ChunkStatus::Success), None);
    assert_eq!(store.counters("unannounced").processed, Some(1));
}

#[test]
fn total_that_arrives_late_completes_at_the_next_chunk() {
    let mut store = CounterStore::new();
    assert_eq!(store.complete_chunk("late", ChunkStatus::Success), None);
    assert_eq!(store.complete_chunk("late", ChunkStatus::Success), None);
    store.announce("late", 2);
    assert_eq!(store.complete_chunk("late", ChunkStatus::Success), Some(JobStatus::Success));
    assert!(store.counters("late").is_empty());
}
