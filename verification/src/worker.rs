//! The per-capture analysis pipeline and its retry policy, as a verified
//! state machine over the queue, tag and capture models.  The surrounding
//! program performs the waits and the outside calls (download, vision
//! request, upload) and feeds their outcomes in as plain events.

use vstd::prelude::*;
use vstd::string::*;

use crate::jsonval::{json_as_object, json_is_object, json_map_is_empty};
use crate::keys::{count_char_upto, extract_object_key};
use crate::store::{eligible, AnalysisQueue, QueueEntry, QueueStatus};
use crate::tags::TagStore;
use crate::vision::FailureKind;

verus! {

/// How a capture's stored vision-result column presents itself.
#[derive(PartialEq, Eq, Structural, Clone, Copy, Debug)]
pub enum StoredDoc {
    /// No document stored.
    Missing,
    /// An empty JSON object: treated as not yet analyzed.
    EmptyObject,
    /// A non-empty JSON object: a real analysis document.
    Document,
    /// Present but not an object: treated as already analyzed.
    NonObject,
}

/// The doc state asks for analysis only while nothing usable is stored.
pub open spec fn needs_analysis(doc: StoredDoc) -> bool {
    doc == StoredDoc::Missing || doc == StoredDoc::EmptyObject
}

/// Classifies a stored vision-result column.  Which shape the opaque
/// document has is the JSON library's answer; that the column was absent is
/// decided here.
pub fn classify_stored_doc(v: Option<&serde_json::Value>) -> (r: StoredDoc)
    ensures
        v is None <==> r == StoredDoc::Missing,
{
    match v {
        None => StoredDoc::Missing,
        Some(doc) => {
            if json_is_object(doc) {
                match json_as_object(doc) {
                    Some(m) => {
                        if json_map_is_empty(m) {
                            StoredDoc::EmptyObject
                        } else {
                            StoredDoc::Document
                        }
                    },
                    None => StoredDoc::EmptyObject,
                }
            } else {
                StoredDoc::NonObject
            }
        },
    }
}

/// What the pipeline decides to do with a loaded capture.
pub enum CapturePlan {
    /// A stored document already exists: complete the entry, no analysis.
    CompleteWithoutAnalysis,
    /// The stored image URL yields no object key: skip, leave the entry
    /// pending.
    SkipBadKey,
    /// Download this key and analyze.
    Analyze { object_key: String },
}

/// Plans one capture: an already-analyzed capture is never submitted again;
/// otherwise the object key decides between analyzing and skipping.
pub fn plan_capture(doc: StoredDoc, image_url: &str) -> (r: CapturePlan)
    ensures
        !needs_analysis(doc) ==> r is CompleteWithoutAnalysis,
        needs_analysis(doc) && count_char_upto(image_url@, '/', image_url@.len() as int) < 3
            ==> r is SkipBadKey,
        needs_analysis(doc) && count_char_upto(image_url@, '/', image_url@.len() as int) >= 3 ==> (
        r matches CapturePlan::Analyze { object_key } && (exists|i: int|
            0 <= i < image_url@.len() && image_url@[i] == '/' && #[trigger] count_char_upto(
                image_url@,
                '/',
                i,
            ) == 2 && object_key@ == image_url@.subrange(i + 1, image_url@.len() as int))),
{
    match doc {
        StoredDoc::Document | StoredDoc::NonObject => CapturePlan::CompleteWithoutAnalysis,
        StoredDoc::Missing | StoredDoc::EmptyObject => match extract_object_key(image_url) {
            Some(object_key) => CapturePlan::Analyze { object_key },
            None => CapturePlan::SkipBadKey,
        },
    }
}

/// Seconds to wait before retry number `attempt + 1`: five seconds doubled
/// for each attempt already made (5, 10, 20, …).  The doubling is cut off
/// far beyond the three calls the policy makes, only so that the value
/// always fits its type.
pub open spec fn backoff_secs(attempt: nat) -> u64
    decreases attempt,
{
    if attempt <= 1 {
        5
    } else if attempt <= 12 {
        (2 * backoff_secs((attempt - 1) as nat)) as u64
    } else {
        10240
    }
}

/// One decision of the inline retry policy.
#[derive(PartialEq, Eq, Structural, Clone, Copy, Debug)]
pub enum RetryDecision {
    /// Sleep this many seconds, then call again.
    RetryAfter(u64),
    /// Surface the failure.
    GiveUp,
}

/// Decides whether vision attempt number `attempt` is followed by another:
/// only a transient failure is retried, and only while fewer than three
/// calls were made.
pub fn vision_retry_decision(attempt: u32, kind: FailureKind) -> (r: RetryDecision)
    requires
        1 <= attempt <= 3,
    ensures
        kind == FailureKind::Transient && attempt < 3 ==> r == RetryDecision::RetryAfter(
            backoff_secs(attempt as nat),
        ),
        kind == FailureKind::Permanent || attempt == 3 ==> r == RetryDecision::GiveUp,
{
    if kind == FailureKind::Transient && attempt < 3 {
        let secs: u64 = if attempt == 1 {
            5
        } else {
            10
        };
        assert(backoff_secs(1) == 5);
        assert(secs == backoff_secs(attempt as nat));
        RetryDecision::RetryAfter(secs)
    } else {
        RetryDecision::GiveUp
    }
}

/// Outcome of one vision call, as an event handed to the driver.
#[derive(PartialEq, Eq, Structural, Clone, Copy, Debug)]
pub enum VisionOutcome {
    Success,
    Failure(FailureKind),
}

/// How a whole analysis step ended.
#[derive(PartialEq, Eq, Structural, Clone, Copy, Debug)]
pub enum FinalOutcome {
    Succeeded,
    Failed(FailureKind),
}

/// Result of driving the up-to-three vision calls of one analysis step.
pub struct AttemptsResult {
    pub calls: u32,
    pub waits: Vec<u64>,
    pub outcome: FinalOutcome,
}

/// How the attempt sequence ends, reading the call outcomes from `s[i]` on
/// with `attempt` as the next call's number.  An exhausted script while a
/// retry was due counts as a still-transient failure.
pub open spec fn drive_result_from(s: Seq<VisionOutcome>, i: int, attempt: nat) -> FinalOutcome
    decreases s.len() - i when 0 <= i <= s.len()
{
    if i >= s.len() {
        FinalOutcome::Failed(FailureKind::Transient)
    } else {
        match s[i] {
            VisionOutcome::Success => FinalOutcome::Succeeded,
            VisionOutcome::Failure(k) => if k == FailureKind::Transient && attempt < 3 {
                drive_result_from(s, i + 1, attempt + 1)
            } else {
                FinalOutcome::Failed(k)
            },
        }
    }
}

/// How many calls the attempt sequence makes.
pub open spec fn drive_calls_from(s: Seq<VisionOutcome>, i: int, attempt: nat) -> nat
    decreases s.len() - i when 0 <= i <= s.len()
{
    if i >= s.len() {
        0
    } else {
        match s[i] {
            VisionOutcome::Success => 1,
            VisionOutcome::Failure(k) => if k == FailureKind::Transient && attempt < 3 {
                1 + drive_calls_from(s, i + 1, attempt + 1)
            } else {
                1
            },
        }
    }
}

/// The backoff sleeps the attempt sequence performs, in order.
pub open spec fn drive_waits_from(s: Seq<VisionOutcome>, i: int, attempt: nat) -> Seq<u64>
    decreases s.len() - i when 0 <= i <= s.len()
{
    if i >= s.len() {
        Seq::empty()
    } else {
        match s[i] {
            VisionOutcome::Success => Seq::empty(),
            VisionOutcome::Failure(k) => if k == FailureKind::Transient && attempt < 3 {
                seq![backoff_secs(attempt)] + drive_waits_from(s, i + 1, attempt + 1)
            } else {
                Seq::empty()
            },
        }
    }
}

/// Drives one analysis step through the scripted call outcomes: calls until
/// a success, a permanent failure, or the third call; sleeps 5 s then 10 s
/// between retried calls.
pub fn drive_vision_attempts(script: &Vec<VisionOutcome>) -> (r: AttemptsResult)
    ensures
        r.outcome == drive_result_from(script@, 0, 1),
        r.calls as nat == drive_calls_from(script@, 0, 1),
        r.waits@ == drive_waits_from(script@, 0, 1),
{
    proof {
        assert(backoff_secs(1) == 5);
        assert(backoff_secs(2) == 10);
    }
    let mut waits: Vec<u64> = Vec::new();
    if script.len() == 0 {
        return AttemptsResult { calls: 0, waits, outcome: FinalOutcome::Failed(
            FailureKind::Transient,
        ) };
    }
    let k0 = match script[0] {
        VisionOutcome::Success => {
            return AttemptsResult { calls: 1, waits, outcome: FinalOutcome::Succeeded };
        },
        VisionOutcome::Failure(k) => k,
    };
    if k0 == FailureKind::Permanent {
        return AttemptsResult { calls: 1, waits, outcome: FinalOutcome::Failed(k0) };
    }
    waits.push(5);
    assert(5 == backoff_secs(1));
    proof {
        assert(drive_result_from(script@, 0, 1) == drive_result_from(script@, 1, 2));
        assert(drive_calls_from(script@, 0, 1) == 1 + drive_calls_from(script@, 1, 2));
    }
    if script.len() == 1 {
        assert(drive_waits_from(script@, 1, 2) =~= Seq::<u64>::empty());
        assert(waits@ =~= drive_waits_from(script@, 0, 1));
        return AttemptsResult { calls: 1, waits, outcome: FinalOutcome::Failed(
            FailureKind::Transient,
        ) };
    }
    let k1 = match script[1] {
        VisionOutcome::Success => {
            assert(drive_waits_from(script@, 1, 2) =~= Seq::<u64>::empty());
            assert(waits@ =~= drive_waits_from(script@, 0, 1));
            return AttemptsResult { calls: 2, waits, outcome: FinalOutcome::Succeeded };
        },
        VisionOutcome::Failure(k) => k,
    };
    if k1 == FailureKind::Permanent {
        assert(drive_waits_from(script@, 1, 2) =~= Seq::<u64>::empty());
        assert(waits@ =~= drive_waits_from(script@, 0, 1));
        return AttemptsResult { calls: 2, waits, outcome: FinalOutcome::Failed(k1) };
    }
    waits.push(10);
    assert(10 == backoff_secs(2));
    proof {
        assert(drive_result_from(script@, 1, 2) == drive_result_from(script@, 2, 3));
        assert(drive_calls_from(script@, 1, 2) == 1 + drive_calls_from(script@, 2, 3));
    }
    if script.len() == 2 {
        assert(drive_waits_from(script@, 2, 3) =~= Seq::<u64>::empty());
        assert(drive_waits_from(script@, 1, 2) =~= seq![backoff_secs(2)] + drive_waits_from(script@, 2, 3));
        assert(waits@ =~= drive_waits_from(script@, 0, 1));
        return AttemptsResult { calls: 2, waits, outcome: FinalOutcome::Failed(
            FailureKind::Transient,
        ) };
    }
    match script[2] {
        VisionOutcome::Success => {
            assert(drive_waits_from(script@, 2, 3) =~= Seq::<u64>::empty());
            assert(drive_waits_from(script@, 1, 2) =~= seq![backoff_secs(2)] + drive_waits_from(script@, 2, 3));
            assert(waits@ =~= drive_waits_from(script@, 0, 1));
            AttemptsResult { calls: 3, waits, outcome: FinalOutcome::Succeeded }
        },
        VisionOutcome::Failure(k2) => {
            assert(drive_waits_from(script@, 2, 3) =~= Seq::<u64>::empty());
            assert(drive_waits_from(script@, 1, 2) =~= seq![backoff_secs(2)] + drive_waits_from(script@, 2, 3));
            assert(waits@ =~= drive_waits_from(script@, 0, 1));
            AttemptsResult { calls: 3, waits, outcome: FinalOutcome::Failed(k2) }
        },
    }
}

/// What a successful analysis hands to persistence, as plain values.
pub struct AnalysisFields {
    pub category: String,
    pub difficulty: String,
    pub verified: bool,
    pub tags: Vec<String>,
}

/// One capture row, reduced to the fields the pipeline reads and writes.
pub struct CaptureRow {
    pub id: u64,
    pub image_url: String,
    pub doc: StoredDoc,
    pub category: Option<String>,
    pub difficulty: Option<String>,
    pub verified: Option<bool>,
    pub tags_column: Option<Vec<String>>,
    pub thumbnail_url: Option<String>,
}

/// The pipeline's world: the queue, the tag tables, and the capture rows.
pub struct PipelineWorld {
    pub queue: AnalysisQueue,
    pub tags: TagStore,
    pub captures: Vec<CaptureRow>,
}

impl PipelineWorld {
    /// Both stores are well formed and capture ids are unique.
    pub open spec fn wf(self) -> bool {
        &&& self.queue.wf()
        &&& self.tags.wf()
        &&& forall|i: int, j: int|
            0 <= i < j < self.captures.len() ==> self.captures[i].id != self.captures[j].id
    }

    /// A capture row with this id exists.
    pub open spec fn spec_has_row(self, cid: u64) -> bool {
        exists|i: int| 0 <= i < self.captures.len() && #[trigger] self.captures[i].id == cid
    }
}

/// How processing one queued capture ended.
#[derive(PartialEq, Eq, Structural, Clone, Copy, Debug)]
pub enum ItemOutcome {
    /// The capture row is gone: skipped, queue untouched.
    SkippedMissing,
    /// A stored document already existed: entry completed, no calls made.
    CompletedWithoutAnalysis,
    /// The stored URL yields no object key: skipped, entry left pending.
    SkippedBadKey,
    /// The source bytes could not be fetched: a permanent failure cycle.
    DownloadFailed,
    /// The vision calls kept failing transiently: entry left untouched.
    VisionFailedTransient,
    /// The vision calls failed permanently: a permanent failure cycle.
    VisionFailedPermanent,
    /// The store refused the analysis write: item aborted before any tag
    /// write or completion, entry stays pending.
    PersistenceFailed,
    /// Analysis persisted and the entry completed.
    Completed,
}

/// Report of one per-capture pipeline run.
pub struct ItemReport {
    pub outcome: ItemOutcome,
    pub vision_calls: u32,
    pub waits: Vec<u64>,
}

/// The new queue equals the old with every entry of `cid` marked completed
/// and stamped; attempts are untouched.
pub open spec fn queue_completed_for(
    old_q: AnalysisQueue,
    new_q: AnalysisQueue,
    cid: u64,
    now: u64,
) -> bool {
    &&& new_q.entries.len() == old_q.entries.len()
    &&& forall|i: int|
        0 <= i < old_q.entries.len() && old_q.entries[i].capture_id == cid ==> new_q.entries[i]
            == (QueueEntry {
            status: QueueStatus::Completed,
            last_attempt: Some(now),
            ..old_q.entries[i]
        })
    &&& forall|i: int|
        0 <= i < old_q.entries.len() && old_q.entries[i].capture_id != cid ==> new_q.entries[i]
            == old_q.entries[i]
}

/// The new queue equals the old with one more failure cycle on every entry
/// of `cid`; status is untouched.
pub open spec fn queue_penalized_for(
    old_q: AnalysisQueue,
    new_q: AnalysisQueue,
    cid: u64,
    now: u64,
) -> bool {
    &&& new_q.entries.len() == old_q.entries.len()
    &&& forall|i: int|
        0 <= i < old_q.entries.len() && old_q.entries[i].capture_id == cid ==> new_q.entries[i]
            == (QueueEntry {
            attempts: (old_q.entries[i].attempts + 1) as u32,
            last_attempt: Some(now),
            ..old_q.entries[i]
        })
    &&& forall|i: int|
        0 <= i < old_q.entries.len() && old_q.entries[i].capture_id != cid ==> new_q.entries[i]
            == old_q.entries[i]
}

/// The new tag store holds exactly `names` for `cid`, other captures'
/// links and all existing tag rows untouched.
pub open spec fn tags_saved_for(
    old_t: TagStore,
    new_t: TagStore,
    cid: u64,
    names: Seq<Seq<char>>,
) -> bool {
    &&& forall|tid: u64|
        #[trigger] new_t.spec_linked(cid, tid) <==> (exists|k: int|
            0 <= k < names.len() && new_t.spec_tag_id(#[trigger] names[k]) == Some(tid))
    &&& forall|p: (u64, u64)|
        p.0 != cid ==> (#[trigger] new_t.links@.contains(p) <==> old_t.links@.contains(p))
    &&& forall|k: int| 0 <= k < names.len() ==> #[trigger] new_t.spec_tag_id(names[k]) is Some
    &&& forall|i: int| 0 <= i < old_t.tags.len() ==> #[trigger] new_t.tags[i] == old_t.tags[i]
}

/// The new row carries the analysis: the document present, the extracted
/// fields stored, the thumbnail written when one was produced.
pub open spec fn row_updated(
    old_row: CaptureRow,
    new_row: CaptureRow,
    analysis: AnalysisFields,
    thumbnail: Option<String>,
) -> bool {
    &&& new_row.id == old_row.id
    &&& new_row.image_url@ == old_row.image_url@
    &&& new_row.doc == StoredDoc::Document
    &&& (new_row.category matches Some(c) && c@ == analysis.category@)
    &&& (new_row.difficulty matches Some(d) && d@ == analysis.difficulty@)
    &&& new_row.verified == Some(analysis.verified)
    &&& (new_row.tags_column matches Some(ts) && ts.deep_view() == analysis.tags.deep_view())
    &&& (match thumbnail {
        Some(u) => new_row.thumbnail_url matches Some(t) && t@ == u@,
        None => new_row.thumbnail_url == old_row.thumbnail_url,
    })
}

/// The complete per-capture step relation: how one pipeline run takes the
/// world from `pre` to `post` and what it reports, given the outside
/// outcomes handed in as events.  `process_capture` ensures exactly this
/// relation, and a tick is a chain of these steps.
pub open spec fn capture_step(
    pre: PipelineWorld,
    post: PipelineWorld,
    r: ItemReport,
    capture_id: u64,
    download_ok: bool,
    script: Seq<VisionOutcome>,
    analysis: AnalysisFields,
    persist_ok: bool,
    thumbnail: Option<String>,
    now: u64,
) -> bool {
    &&& post.wf()
    &&& post.queue.entries.len() == pre.queue.entries.len()
    &&& forall|i: int|
        0 <= i < pre.queue.entries.len() && #[trigger] pre.queue.entries[i].capture_id
            != capture_id ==> post.queue.entries[i] == pre.queue.entries[i]
    &&& post.tags.next_tag_id <= pre.tags.next_tag_id + analysis.tags.len()
    &&& post.captures.len() == pre.captures.len()
    &&& forall|j: int|
        0 <= j < pre.captures.len() && #[trigger] pre.captures[j].id != capture_id
            ==> post.captures[j] == pre.captures[j]
    &&& forall|i: int|
        0 <= i < pre.queue.entries.len() ==> #[trigger] post.queue.entries[i].capture_id
            == pre.queue.entries[i].capture_id
    &&& (!pre.spec_has_row(capture_id) ==> (r.outcome == ItemOutcome::SkippedMissing
        && r.vision_calls == 0 && post == pre))
    &&& forall|idx: int|
        0 <= idx < pre.captures.len() && pre.captures[idx].id == capture_id && !needs_analysis(
            #[trigger] pre.captures[idx].doc,
        ) ==> (r.outcome == ItemOutcome::CompletedWithoutAnalysis && r.vision_calls == 0
            && post.captures == pre.captures && post.tags == pre.tags && queue_completed_for(
            pre.queue,
            post.queue,
            capture_id,
            now,
        ))
    &&& forall|idx: int|
        0 <= idx < pre.captures.len() && pre.captures[idx].id == capture_id && needs_analysis(
            #[trigger] pre.captures[idx].doc,
        ) && count_char_upto(
            pre.captures[idx].image_url@,
            '/',
            pre.captures[idx].image_url@.len() as int,
        ) < 3 ==> (r.outcome == ItemOutcome::SkippedBadKey && r.vision_calls == 0 && post == pre)
    &&& forall|idx: int|
        0 <= idx < pre.captures.len() && pre.captures[idx].id == capture_id && needs_analysis(
            #[trigger] pre.captures[idx].doc,
        ) && count_char_upto(
            pre.captures[idx].image_url@,
            '/',
            pre.captures[idx].image_url@.len() as int,
        ) >= 3 && !download_ok ==> (r.outcome == ItemOutcome::DownloadFailed && r.vision_calls
            == 0 && post.captures == pre.captures && post.tags == pre.tags && queue_penalized_for(
            pre.queue,
            post.queue,
            capture_id,
            now,
        ))
    &&& forall|idx: int|
        0 <= idx < pre.captures.len() && pre.captures[idx].id == capture_id && needs_analysis(
            #[trigger] pre.captures[idx].doc,
        ) && count_char_upto(
            pre.captures[idx].image_url@,
            '/',
            pre.captures[idx].image_url@.len() as int,
        ) >= 3 && download_ok ==> (r.vision_calls as nat == drive_calls_from(script, 0, 1)
            && r.waits@ == drive_waits_from(script, 0, 1))
    &&& forall|idx: int|
        0 <= idx < pre.captures.len() && pre.captures[idx].id == capture_id && needs_analysis(
            #[trigger] pre.captures[idx].doc,
        ) && count_char_upto(
            pre.captures[idx].image_url@,
            '/',
            pre.captures[idx].image_url@.len() as int,
        ) >= 3 && download_ok && drive_result_from(script, 0, 1) == FinalOutcome::Failed(
            FailureKind::Transient,
        ) ==> (r.outcome == ItemOutcome::VisionFailedTransient && post == pre)
    &&& forall|idx: int|
        0 <= idx < pre.captures.len() && pre.captures[idx].id == capture_id && needs_analysis(
            #[trigger] pre.captures[idx].doc,
        ) && count_char_upto(
            pre.captures[idx].image_url@,
            '/',
            pre.captures[idx].image_url@.len() as int,
        ) >= 3 && download_ok && drive_result_from(script, 0, 1) == FinalOutcome::Failed(
            FailureKind::Permanent,
        ) ==> (r.outcome == ItemOutcome::VisionFailedPermanent && post.captures == pre.captures
            && post.tags == pre.tags && queue_penalized_for(pre.queue, post.queue, capture_id, now))
    &&& forall|idx: int|
        0 <= idx < pre.captures.len() && pre.captures[idx].id == capture_id && needs_analysis(
            #[trigger] pre.captures[idx].doc,
        ) && count_char_upto(
            pre.captures[idx].image_url@,
            '/',
            pre.captures[idx].image_url@.len() as int,
        ) >= 3 && download_ok && drive_result_from(script, 0, 1) == FinalOutcome::Succeeded
            && !persist_ok ==> (r.outcome == ItemOutcome::PersistenceFailed && post == pre)
    &&& forall|idx: int|
        0 <= idx < pre.captures.len() && pre.captures[idx].id == capture_id && needs_analysis(
            #[trigger] pre.captures[idx].doc,
        ) && count_char_upto(
            pre.captures[idx].image_url@,
            '/',
            pre.captures[idx].image_url@.len() as int,
        ) >= 3 && download_ok && drive_result_from(script, 0, 1) == FinalOutcome::Succeeded
            && persist_ok ==> (r.outcome == ItemOutcome::Completed && post.captures.len()
            == pre.captures.len() && (forall|j: int|
            0 <= j < pre.captures.len() && j != idx ==> post.captures[j] == pre.captures[j])
            && row_updated(pre.captures[idx], post.captures[idx], analysis, thumbnail)
            && queue_completed_for(pre.queue, post.queue, capture_id, now) && (analysis.tags.len()
            > 0 ==> tags_saved_for(pre.tags, post.tags, capture_id, analysis.tags.deep_view()))
            && (analysis.tags.len() == 0 ==> post.tags == pre.tags))
}

fn find_capture(captures: &Vec<CaptureRow>, cid: u64) -> (r: Option<usize>)
    ensures
        match r {
            Some(i) => i < captures.len() && captures[i as int].id == cid,
            None => forall|k: int| 0 <= k < captures.len() ==> captures[k].id != cid,
        },
{
    let mut i: usize = 0;
    while i < captures.len()
        invariant
            i <= captures.len(),
            forall|k: int| 0 <= k < i ==> captures[k].id != cid,
        decreases captures.len() - i,
    {
        if captures[i].id == cid {
            return Some(i);
        }
        i = i + 1;
    }
    None
}

fn clone_strings(v: &Vec<String>) -> (r: Vec<String>)
    ensures
        r.deep_view() == v.deep_view(),
{
    let mut out: Vec<String> = Vec::new();
    let mut i: usize = 0;
    while i < v.len()
        invariant
            i <= v.len(),
            out.deep_view() =~= v.deep_view().take(i as int),
        decreases v.len() - i,
    {
        let ghost prev = out.deep_view();
        out.push(v[i].clone());
        proof {
            assert forall|j: int| 0 <= j < prev.len() implies out.deep_view()[j] == prev[j] by {}
            assert(out.deep_view()[prev.len() as int] == v.deep_view()[i as int]);
            assert(out.deep_view() =~= v.deep_view().take(i + 1));
        }
        i = i + 1;
    }
    proof {
        assert(v.deep_view().take(v.len() as int) =~= v.deep_view());
    }
    out
}

/// Runs the whole per-capture pipeline on the world model, with the outside
/// outcomes handed in as events: whether the download succeeded, how each
/// vision call went, what a successful analysis extracted, and the uploaded
/// thumbnail URL if one was derived.
///
/// A capture that already carries a stored document is completed without a
/// single vision call.  A transient failure leaves the entry untouched, to
/// be retried on a later poll; a permanent failure (download included) adds
/// one failure cycle.  Success persists the analysis, replaces the tag set,
/// completes the entry — attempts unchanged — and records the thumbnail.
#[verifier::rlimit(100)]
pub fn process_capture(
    world: &mut PipelineWorld,
    capture_id: u64,
    download_ok: bool,
    script: &Vec<VisionOutcome>,
    analysis: &AnalysisFields,
    persist_ok: bool,
    thumbnail: Option<String>,
    now: u64,
) -> (r: ItemReport)
    requires
        old(world).wf(),
        forall|i: int|
            0 <= i < old(world).queue.entries.len() && #[trigger] old(world).queue.entries[i].capture_id
                == capture_id ==> old(world).queue.entries[i].attempts < u32::MAX,
        old(world).tags.next_tag_id + analysis.tags.len() < u64::MAX,
    ensures
        final(world).wf(),
        capture_step(
            *old(world),
            *final(world),
            r,
            capture_id,
            download_ok,
            script@,
            *analysis,
            persist_ok,
            thumbnail,
            now,
        ),
{
    let idx = match find_capture(&world.captures, capture_id) {
        Some(i) => i,
        None => {
            return ItemReport {
                outcome: ItemOutcome::SkippedMissing,
                vision_calls: 0,
                waits: Vec::new(),
            };
        },
    };
    proof {
        assert forall|idx2: int|
            0 <= idx2 < world.captures.len() && #[trigger] world.captures[idx2].id == capture_id
                implies idx2 == idx as int by {
            if idx2 < idx as int {
                assert(world.captures[idx2].id != world.captures[idx as int].id);
            } else if idx2 > idx as int {
                assert(world.captures[idx as int].id != world.captures[idx2].id);
            }
        }
    }
    let doc = world.captures[idx].doc;
    let plan = plan_capture(doc, world.captures[idx].image_url.as_str());
    match plan {
        CapturePlan::CompleteWithoutAnalysis => {
            world.queue.mark_completed(capture_id, now);
            ItemReport {
                outcome: ItemOutcome::CompletedWithoutAnalysis,
                vision_calls: 0,
                waits: Vec::new(),
            }
        },
        CapturePlan::SkipBadKey => {
            ItemReport { outcome: ItemOutcome::SkippedBadKey, vision_calls: 0, waits: Vec::new() }
        },
        CapturePlan::Analyze { object_key: _ } => {
            if !download_ok {
                world.queue.increment_attempts(capture_id, now);
                return ItemReport {
                    outcome: ItemOutcome::DownloadFailed,
                    vision_calls: 0,
                    waits: Vec::new(),
                };
            }
            let attempts = drive_vision_attempts(script);
            match attempts.outcome {
                FinalOutcome::Failed(k) => {
                    if k == FailureKind::Permanent {
                        world.queue.increment_attempts(capture_id, now);
                        ItemReport {
                            outcome: ItemOutcome::VisionFailedPermanent,
                            vision_calls: attempts.calls,
                            waits: attempts.waits,
                        }
                    } else {
                        ItemReport {
                            outcome: ItemOutcome::VisionFailedTransient,
                            vision_calls: attempts.calls,
                            waits: attempts.waits,
                        }
                    }
                },
                FinalOutcome::Succeeded => {
                    if !persist_ok {
                        return ItemReport {
                            outcome: ItemOutcome::PersistenceFailed,
                            vision_calls: attempts.calls,
                            waits: attempts.waits,
                        };
                    }
                    let row = &world.captures[idx];
                    let new_row = CaptureRow {
                        id: row.id,
                        image_url: row.image_url.clone(),
                        doc: StoredDoc::Document,
                        category: Some(analysis.category.clone()),
                        difficulty: Some(analysis.difficulty.clone()),
                        verified: Some(analysis.verified),
                        tags_column: Some(clone_strings(&analysis.tags)),
                        thumbnail_url: match &thumbnail {
                            Some(u) => Some(u.clone()),
                            None => match &row.thumbnail_url {
                                Some(t) => Some(t.clone()),
                                None => None,
                            },
                        },
                    };
                    world.captures.set(idx, new_row);
                    proof {
                        assert(row_updated(
                            old(world).captures[idx as int],
                            world.captures[idx as int],
                            *analysis,
                            thumbnail,
                        ));
                        assert forall|k: int|
                            0 <= k < analysis.tags.len() implies #[trigger] analysis.tags.deep_view()[k]
                            == analysis.tags[k]@ by {}
                    }
                    if analysis.tags.len() > 0 {
                        world.tags.save_capture_tags(capture_id, &analysis.tags);
                        proof {
                            let nseq = analysis.tags.deep_view();
                            assert(nseq.len() == analysis.tags.len());
                            assert forall|tid: u64| #[trigger]
                                world.tags.spec_linked(capture_id, tid) <==> (exists|k: int|
                                0 <= k < nseq.len() && world.tags.spec_tag_id(#[trigger] nseq[k])
                                    == Some(tid)) by {
                                if world.tags.spec_linked(capture_id, tid) {
                                    let k = choose|k: int|
                                        0 <= k < analysis.tags.len() && world.tags.spec_tag_id(
                                            #[trigger] analysis.tags[k]@,
                                        ) == Some(tid);
                                    assert(nseq[k] == analysis.tags[k]@);
                                    assert(world.tags.spec_tag_id(nseq[k]) == Some(tid));
                                }
                                if exists|k: int|
                                    0 <= k < nseq.len() && world.tags.spec_tag_id(
                                        #[trigger] nseq[k],
                                    ) == Some(tid) {
                                    let k = choose|k: int|
                                        0 <= k < nseq.len() && world.tags.spec_tag_id(
                                            #[trigger] nseq[k],
                                        ) == Some(tid);
                                    assert(nseq[k] == analysis.tags[k]@);
                                    assert(world.tags.spec_tag_id(analysis.tags[k]@) == Some(
                                        tid,
                                    ));
                                    assert(world.tags.spec_linked(capture_id, tid));
                                }
                            }
                            assert forall|k: int|
                                0 <= k < nseq.len() implies #[trigger] world.tags.spec_tag_id(
                                nseq[k],
                            ) is Some by {
                                assert(nseq[k] == analysis.tags[k]@);
                                assert(world.tags.spec_tag_id(analysis.tags[k]@) is Some);
                            }
                            assert(tags_saved_for(old(world).tags, world.tags, capture_id, nseq));
                        }
                    }
                    world.queue.mark_completed(capture_id, now);
                    ItemReport {
                        outcome: ItemOutcome::Completed,
                        vision_calls: attempts.calls,
                        waits: attempts.waits,
                    }
                },
            }
        },
    }
}

/// The scripted outside outcomes for one queued item of a tick.
pub struct ItemScript {
    pub download_ok: bool,
    pub vision: Vec<VisionOutcome>,
    pub analysis: AnalysisFields,
    pub persist_ok: bool,
    pub thumbnail: Option<String>,
}

/// Total tag count across the scripts from `i` on.
pub open spec fn scripts_tag_total(scripts: Seq<ItemScript>, i: int) -> nat
    decreases scripts.len() - i when 0 <= i <= scripts.len()
{
    if i >= scripts.len() {
        0
    } else {
        (scripts[i].analysis.tags.len() + scripts_tag_total(scripts, i + 1)) as nat
    }
}

/// One worker tick: polls up to `limit` eligible entries, oldest first, and
/// runs the per-capture pipeline on each in order, reading each item's
/// outside outcomes from the script at its position.
pub fn run_tick(
    world: &mut PipelineWorld,
    limit: usize,
    scripts: &Vec<ItemScript>,
    now: u64,
) -> (r: Vec<ItemReport>)
    requires
        old(world).wf(),
        scripts.len() >= limit,
        old(world).tags.next_tag_id + scripts_tag_total(scripts@, 0) < u64::MAX,
    ensures
        final(world).wf(),
        r.len() == crate::store::selection_from(old(world).queue.entries@, 0, limit as nat).len(),
        exists|ws: Seq<PipelineWorld>|
            #![trigger ws.len()]
            ws.len() == r.len() + 1 && ws[0] == *old(world) && ws[r.len() as int] == *final(world)
                && (forall|k: int|
                0 <= k < r.len() ==> capture_step(
                    ws[k],
                    ws[k + 1],
                    #[trigger] r[k],
                    crate::store::selection_from(old(world).queue.entries@, 0, limit as nat)[k],
                    scripts[k].download_ok,
                    scripts[k].vision@,
                    scripts[k].analysis,
                    scripts[k].persist_ok,
                    scripts[k].thumbnail,
                    now,
                )),
{
    let ids = world.queue.fetch_pending(limit);
    let ghost w0 = *world;
    proof {
        assert forall|j: int, e: int|
            0 <= j < ids.len() && 0 <= e < world.queue.entries.len()
                && #[trigger] world.queue.entries[e].capture_id == #[trigger] ids[j]
                implies world.queue.entries[e].attempts < 3 by {
            let e2 = choose|e2: int|
                0 <= e2 < world.queue.entries.len() && #[trigger] eligible(
                    world.queue.entries[e2],
                ) && world.queue.entries[e2].capture_id == ids[j];
            if e < e2 {
                assert(world.queue.entries[e].capture_id != world.queue.entries[e2].capture_id);
            } else if e > e2 {
                assert(world.queue.entries[e2].capture_id != world.queue.entries[e].capture_id);
            }
        }
    }
    let mut reports: Vec<ItemReport> = Vec::new();
    let ghost mut ws: Seq<PipelineWorld> = seq![*world];
    let mut i: usize = 0;
    while i < ids.len()
        invariant
            world.wf(),
            i <= ids.len(),
            ids.len() <= limit,
            limit <= scripts.len(),
            forall|a: int, b: int| 0 <= a < b < ids.len() ==> ids[a] != ids[b],
            reports.len() == i,
            ws.len() == i + 1,
            ws[0] == w0,
            ws[i as int] == *world,
            forall|k: int|
                0 <= k < i ==> capture_step(
                    ws[k],
                    ws[k + 1],
                    #[trigger] reports[k],
                    ids[k],
                    scripts[k].download_ok,
                    scripts[k].vision@,
                    scripts[k].analysis,
                    scripts[k].persist_ok,
                    scripts[k].thumbnail,
                    now,
                ),
            world.tags.next_tag_id + scripts_tag_total(scripts@, i as int) < u64::MAX,
            forall|j: int, e: int|
                i <= j < ids.len() && 0 <= e < world.queue.entries.len()
                    && #[trigger] world.queue.entries[e].capture_id == #[trigger] ids[j]
                    ==> world.queue.entries[e].attempts < 3,
        decreases ids.len() - i,
    {
        let ghost pre = *world;
        proof {
            assert(scripts_tag_total(scripts@, i as int) == scripts@[i as int].analysis.tags.len()
                + scripts_tag_total(scripts@, i + 1));
        }
        let script = &scripts[i];
        let thumb = match &script.thumbnail {
            Some(u) => Some(u.clone()),
            None => None,
        };
        proof {
            assert(thumb == scripts@[i as int].thumbnail);
        }
        let report = process_capture(
            world,
            ids[i],
            script.download_ok,
            &script.vision,
            &script.analysis,
            script.persist_ok,
            thumb,
            now,
        );
        reports.push(report);
        proof {
            ws = ws.push(*world);
            assert(capture_step(
                pre,
                *world,
                reports[i as int],
                ids[i as int],
                scripts[i as int].download_ok,
                scripts[i as int].vision@,
                scripts[i as int].analysis,
                scripts[i as int].persist_ok,
                scripts[i as int].thumbnail,
                now,
            ));
            assert forall|j: int, e: int|
                i + 1 <= j < ids.len() && 0 <= e < world.queue.entries.len()
                    && #[trigger] world.queue.entries[e].capture_id == #[trigger] ids[j]
                    implies world.queue.entries[e].attempts < 3 by {
                assert(pre.queue.entries[e].capture_id == world.queue.entries[e].capture_id);
                assert(ids[j] != ids[i as int]);
                assert(world.queue.entries[e] == pre.queue.entries[e]);
            }
        }
        i = i + 1;
    }
    proof {
        assert(ws.len() == reports.len() + 1);
        assert(ws[0] == *old(world));
        assert(ws[reports.len() as int] == *world);
        assert(ids@ == crate::store::selection_from(old(world).queue.entries@, 0, limit as nat));
    }
    reports
}

} // verus!
