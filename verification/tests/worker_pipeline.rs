use capture_pipeline::store::{AnalysisQueue, QueueStatus};
use capture_pipeline::tags::TagStore;
use capture_pipeline::vision::FailureKind;
use capture_pipeline::worker::{
    classify_stored_doc, drive_vision_attempts, plan_capture, process_capture, run_tick,
    vision_retry_decision, AnalysisFields, CapturePlan, CaptureRow, FinalOutcome, ItemOutcome,
    ItemScript, PipelineWorld, RetryDecision, StoredDoc, VisionOutcome,
};

fn analysis_landmark() -> AnalysisFields {
    AnalysisFields {
        category: "LANDMARK".to_string(),
        difficulty: "MEDIUM".to_string(),
        verified: true,
        tags: vec!["volcanico".to_string(), "unesco".to_string()],
    }
}

fn pending_world(doc: StoredDoc, image_url: &str) -> PipelineWorld {
    let mut queue = AnalysisQueue::new();
    queue.enqueue(1, 42, 100);
    PipelineWorld {
        queue,
        tags: TagStore::new(),
        captures: vec![CaptureRow {
            id: 42,
            image_url: image_url.to_string(),
            doc,
            category: None,
            difficulty: None,
            verified: None,
            tags_column: None,
            thumbnail_url: None,
        }],
    }
}

const GOOD_URL: &str = "https://bucket.s3.amazonaws.com/captures/9/img.jpg";

#[test]
fn stored_doc_classification() {
    assert_eq!(classify_stored_doc(None), StoredDoc::Missing);
    let empty: serde_json::Value = serde_json::from_str("{}").unwrap();
    assert_eq!(classify_stored_doc(Some(&empty)), StoredDoc::EmptyObject);
    let full: serde_json::Value = serde_json::from_str("{\"category\":\"ART\"}").unwrap();
    assert_eq!(classify_stored_doc(Some(&full)), StoredDoc::Document);
    let other: serde_json::Value = serde_json::from_str("\"text\"").unwrap();
    assert_eq!(classify_stored_doc(Some(&other)), StoredDoc::NonObject);
}

#[test]
fn planning_never_resubmits_an_analyzed_capture() {
    assert!(matches!(
        plan_capture(StoredDoc::Document, GOOD_URL),
        CapturePlan::CompleteWithoutAnalysis
    ));
    assert!(matches!(
        plan_capture(StoredDoc::NonObject, GOOD_URL),
        CapturePlan::CompleteWithoutAnalysis
    ));
    match plan_capture(StoredDoc::Missing, GOOD_URL) {
        CapturePlan::Analyze { object_key } => assert_eq!(object_key, "captures/9/img.jpg"),
        other => panic!("expected an analyze plan, got a different one: {}", plan_name(&other)),
    }
    assert!(matches!(plan_capture(StoredDoc::EmptyObject, "a/b"), CapturePlan::SkipBadKey));
}

fn plan_name(p: &CapturePlan) -> &'static str {
    match p {
        CapturePlan::CompleteWithoutAnalysis => "complete",
        CapturePlan::SkipBadKey => "skip",
        CapturePlan::Analyze { .. } => "analyze",
    }
}

#[test]
fn retry_policy_backoffs() {
    assert_eq!(
        vision_retry_decision(1, FailureKind::Transient),
        RetryDecision::RetryAfter(5)
    );
    assert_eq!(
        vision_retry_decision(2, FailureKind::Transient),
        RetryDecision::RetryAfter(10)
    );
    assert_eq!(vision_retry_decision(3, FailureKind::Transient), RetryDecision::GiveUp);
    assert_eq!(vision_retry_decision(1, FailureKind::Permanent), RetryDecision::GiveUp);
}

#[test]
fn attempt_driver_follows_the_script() {
    let first_try = drive_vision_attempts(&vec![VisionOutcome::Success]);
    assert_eq!(first_try.calls, 1);
    assert_eq!(first_try.waits, Vec::<u64>::new());
    assert_eq!(first_try.outcome, FinalOutcome::Succeeded);

    let second_try = drive_vision_attempts(&vec![
        VisionOutcome::Failure(FailureKind::Transient),
        VisionOutcome::Success,
    ]);
    assert_eq!(second_try.calls, 2);
    assert_eq!(second_try.waits, vec![5]);
    assert_eq!(second_try.outcome, FinalOutcome::Succeeded);

    let exhausted = drive_vision_attempts(&vec![
        VisionOutcome::Failure(FailureKind::Transient),
        VisionOutcome::Failure(FailureKind::Transient),
        VisionOutcome::Failure(FailureKind::Transient),
    ]);
    assert_eq!(exhausted.calls, 3);
    assert_eq!(exhausted.waits, vec![5, 10]);
    assert_eq!(exhausted.outcome, FinalOutcome::Failed(FailureKind::Transient));

    let hard_fail = drive_vision_attempts(&vec![VisionOutcome::Failure(FailureKind::Permanent)]);
    assert_eq!(hard_fail.calls, 1);
    assert_eq!(hard_fail.outcome, FinalOutcome::Failed(FailureKind::Permanent));
}

#[test]
fn analyzed_capture_is_completed_without_calls() {
    let mut world = pending_world(StoredDoc::Document, GOOD_URL);
    let report = process_capture(
        &mut world,
        42,
        true,
        &vec![VisionOutcome::Success],
        &analysis_landmark(),
        true,
        None,
        200,
    );
    assert_eq!(report.outcome, ItemOutcome::CompletedWithoutAnalysis);
    assert_eq!(report.vision_calls, 0);
    assert_eq!(world.queue.entries[0].status, QueueStatus::Completed);
    assert!(world.captures[0].category.is_none());
    assert_eq!(world.tags.links.len(), 0);
}

#[test]
fn pipeline_success_on_second_attempt() {
    let mut world = pending_world(StoredDoc::Missing, GOOD_URL);
    let attempts_before = world.queue.entries[0].attempts;
    let script = vec![
        VisionOutcome::Failure(FailureKind::Transient),
        VisionOutcome::Success,
    ];
    let report = process_capture(
        &mut world,
        42,
        true,
        &script,
        &analysis_landmark(),
        true,
        Some("https://bucket.s3.amazonaws.com/thumbnails/42.jpg".to_string()),
        200,
    );
    assert_eq!(report.outcome, ItemOutcome::Completed);
    assert_eq!(report.vision_calls, 2);
    assert_eq!(report.waits, vec![5]);
    assert_eq!(world.queue.entries[0].status, QueueStatus::Completed);
    assert_eq!(world.queue.entries[0].attempts, attempts_before);
    let row = &world.captures[0];
    assert_eq!(row.doc, StoredDoc::Document);
    assert_eq!(row.category.as_deref(), Some("LANDMARK"));
    assert_eq!(row.difficulty.as_deref(), Some("MEDIUM"));
    assert_eq!(row.verified, Some(true));
    assert_eq!(
        row.tags_column.clone().unwrap(),
        vec!["volcanico".to_string(), "unesco".to_string()]
    );
    assert_eq!(
        row.thumbnail_url.as_deref(),
        Some("https://bucket.s3.amazonaws.com/thumbnails/42.jpg")
    );
    assert_eq!(
        world.tags.get_tags_for_capture(42),
        vec!["unesco".to_string(), "volcanico".to_string()]
    );
}

#[test]
fn transient_failures_leave_the_entry_untouched() {
    let mut world = pending_world(StoredDoc::Missing, GOOD_URL);
    let script = vec![
        VisionOutcome::Failure(FailureKind::Transient),
        VisionOutcome::Failure(FailureKind::Transient),
        VisionOutcome::Failure(FailureKind::Transient),
    ];
    let report = process_capture(&mut world, 42, true, &script, &analysis_landmark(), true, None, 200);
    assert_eq!(report.outcome, ItemOutcome::VisionFailedTransient);
    assert_eq!(report.vision_calls, 3);
    assert_eq!(world.queue.entries[0].status, QueueStatus::Pending);
    assert_eq!(world.queue.entries[0].attempts, 0);
    assert!(world.captures[0].category.is_none());
}

#[test]
fn permanent_failure_costs_an_attempt() {
    let mut world = pending_world(StoredDoc::Missing, GOOD_URL);
    let script = vec![VisionOutcome::Failure(FailureKind::Permanent)];
    let report = process_capture(&mut world, 42, true, &script, &analysis_landmark(), true, None, 200);
    assert_eq!(report.outcome, ItemOutcome::VisionFailedPermanent);
    assert_eq!(world.queue.entries[0].status, QueueStatus::Pending);
    assert_eq!(world.queue.entries[0].attempts, 1);
}

#[test]
fn download_failure_costs_an_attempt() {
    let mut world = pending_world(StoredDoc::Missing, GOOD_URL);
    let report = process_capture(
        &mut world,
        42,
        false,
        &vec![VisionOutcome::Success],
        &analysis_landmark(),
        true,
        None,
        200,
    );
    assert_eq!(report.outcome, ItemOutcome::DownloadFailed);
    assert_eq!(report.vision_calls, 0);
    assert_eq!(world.queue.entries[0].attempts, 1);
}

#[test]
fn missing_capture_and_bad_key_leave_the_queue_alone() {
    let mut world = pending_world(StoredDoc::Missing, GOOD_URL);
    let report = process_capture(
        &mut world,
        999,
        true,
        &vec![VisionOutcome::Success],
        &analysis_landmark(),
        true,
        None,
        200,
    );
    assert_eq!(report.outcome, ItemOutcome::SkippedMissing);
    assert_eq!(world.queue.entries[0].status, QueueStatus::Pending);

    let mut bad = pending_world(StoredDoc::Missing, "a/b");
    let report = process_capture(
        &mut bad,
        42,
        true,
        &vec![VisionOutcome::Success],
        &analysis_landmark(),
        true,
        None,
        200,
    );
    assert_eq!(report.outcome, ItemOutcome::SkippedBadKey);
    assert_eq!(bad.queue.entries[0].status, QueueStatus::Pending);
    assert_eq!(bad.queue.entries[0].attempts, 0);
}

#[test]
fn persistence_failure_aborts_before_completion() {
    let mut world = pending_world(StoredDoc::Missing, GOOD_URL);
    let report = process_capture(
        &mut world,
        42,
        true,
        &vec![VisionOutcome::Success],
        &analysis_landmark(),
        false,
        None,
        200,
    );
    assert_eq!(report.outcome, ItemOutcome::PersistenceFailed);
    assert_eq!(report.vision_calls, 1);
    assert_eq!(world.queue.entries[0].status, QueueStatus::Pending);
    assert_eq!(world.queue.entries[0].attempts, 0);
    assert!(world.captures[0].category.is_none());
    assert_eq!(world.tags.links.len(), 0);
}

#[test]
fn a_tick_processes_the_fetched_batch_in_order() {
    let mut queue = AnalysisQueue::new();
    queue.enqueue(1, 42, 100);
    queue.enqueue(2, 43, 110);
    let mut world = PipelineWorld {
        queue,
        tags: TagStore::new(),
        captures: vec![
            CaptureRow {
                id: 42,
                image_url: GOOD_URL.to_string(),
                doc: StoredDoc::Missing,
                category: None,
                difficulty: None,
                verified: None,
                tags_column: None,
                thumbnail_url: None,
            },
            CaptureRow {
                id: 43,
                image_url: GOOD_URL.to_string(),
                doc: StoredDoc::Document,
                category: None,
                difficulty: None,
                verified: None,
                tags_column: None,
                thumbnail_url: None,
            },
        ],
    };
    let scripts = vec![
        ItemScript {
            download_ok: true,
            vision: vec![VisionOutcome::Success],
            analysis: analysis_landmark(),
            persist_ok: true,
            thumbnail: None,
        },
        ItemScript {
            download_ok: true,
            vision: vec![VisionOutcome::Success],
            analysis: analysis_landmark(),
            persist_ok: true,
            thumbnail: None,
        },
    ];
    let reports = run_tick(&mut world, 2, &scripts, 300);
    assert_eq!(reports.len(), 2);
    assert_eq!(reports[0].outcome, ItemOutcome::Completed);
    assert_eq!(reports[1].outcome, ItemOutcome::CompletedWithoutAnalysis);
    assert_eq!(world.queue.entries[0].status, QueueStatus::Completed);
    assert_eq!(world.queue.entries[1].status, QueueStatus::Completed);
}
