use capture_pipeline::store::{AnalysisQueue, QueueEntry, QueueStatus};
use capture_pipeline::tags::TagStore;

fn entry(id: u64, capture_id: u64, status: QueueStatus, attempts: u32, created_at: u64) -> QueueEntry {
    QueueEntry { id, capture_id, status, attempts, created_at, last_attempt: None }
}

#[test]
fn fetch_returns_oldest_pending_first() {
    let mut q = AnalysisQueue::new();
    q.enqueue(1, 101, 10);
    q.enqueue(2, 102, 20);
    q.enqueue(3, 103, 30);
    assert_eq!(q.fetch_pending(10), vec![101, 102, 103]);
    assert_eq!(q.fetch_pending(2), vec![101, 102]);
}

#[test]
fn completed_entries_are_not_fetched() {
    let mut q = AnalysisQueue::new();
    q.enqueue(1, 101, 10);
    q.enqueue(2, 102, 20);
    q.mark_completed(101, 99);
    assert_eq!(q.fetch_pending(10), vec![102]);
    assert_eq!(q.entries[0].status, QueueStatus::Completed);
    assert_eq!(q.entries[0].last_attempt, Some(99));
    assert_eq!(q.entries[0].attempts, 0);
}

#[test]
fn attempt_ceiling_excludes_entry_regardless_of_status() {
    let q = AnalysisQueue {
        entries: vec![
            entry(1, 101, QueueStatus::Pending, 3, 10),
            entry(2, 102, QueueStatus::Completed, 3, 20),
            entry(3, 103, QueueStatus::Pending, 2, 30),
        ],
    };
    assert_eq!(q.fetch_pending(10), vec![103]);
}

#[test]
fn increments_make_entry_ineligible_at_three() {
    let mut q = AnalysisQueue::new();
    q.enqueue(1, 101, 10);
    q.increment_attempts(101, 11);
    assert_eq!(q.fetch_pending(10), vec![101]);
    q.increment_attempts(101, 12);
    assert_eq!(q.fetch_pending(10), vec![101]);
    q.increment_attempts(101, 13);
    assert_eq!(q.entries[0].attempts, 3);
    assert_eq!(q.entries[0].status, QueueStatus::Pending);
    assert_eq!(q.fetch_pending(10), Vec::<u64>::new());
}

#[test]
fn enqueue_is_idempotent_per_capture() {
    let mut q = AnalysisQueue::new();
    q.enqueue(1, 101, 10);
    q.enqueue(2, 101, 20);
    assert_eq!(q.entries.len(), 1);
    assert_eq!(q.entries[0].id, 1);
}

#[test]
fn saving_tags_links_each_name_once() {
    let mut t = TagStore::new();
    t.save_capture_tags(7, &vec!["volcanico".to_string(), "unesco".to_string()]);
    assert_eq!(
        t.get_tags_for_capture(7),
        vec!["unesco".to_string(), "volcanico".to_string()]
    );
    assert_eq!(t.links.len(), 2);
}

#[test]
fn saving_twice_keeps_only_latest_set() {
    let mut t = TagStore::new();
    t.save_capture_tags(7, &vec!["volcanico".to_string(), "unesco".to_string()]);
    t.save_capture_tags(7, &vec!["colonial".to_string(), "unesco".to_string()]);
    assert_eq!(
        t.get_tags_for_capture(7),
        vec!["colonial".to_string(), "unesco".to_string()]
    );
    assert_eq!(t.links.len(), 2);
    assert_eq!(t.tags.len(), 3);
}

#[test]
fn duplicate_names_leave_single_join_row() {
    let mut t = TagStore::new();
    t.save_capture_tags(7, &vec!["tropical".to_string(), "tropical".to_string()]);
    assert_eq!(t.get_tags_for_capture(7), vec!["tropical".to_string()]);
    assert_eq!(t.links.len(), 1);
    assert_eq!(t.tags.len(), 1);
}

#[test]
fn other_captures_links_survive_a_replace() {
    let mut t = TagStore::new();
    t.save_capture_tags(1, &vec!["a".to_string(), "b".to_string()]);
    t.save_capture_tags(2, &vec!["b".to_string(), "c".to_string()]);
    t.save_capture_tags(1, &vec!["d".to_string()]);
    assert_eq!(t.get_tags_for_capture(1), vec!["d".to_string()]);
    assert_eq!(t.get_tags_for_capture(2), vec!["b".to_string(), "c".to_string()]);
}

#[test]
fn upsert_reuses_the_existing_id() {
    let mut t = TagStore::new();
    let a = t.upsert_tag(&"cascada".to_string());
    let b = t.upsert_tag(&"cascada".to_string());
    assert_eq!(a, b);
    assert_eq!(t.tags.len(), 1);
    let c = t.upsert_tag(&"selva".to_string());
    assert_ne!(a, c);
}
