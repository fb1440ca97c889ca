//! Model of the analysis work queue that the SQL store keeps: one entry per
//! capture awaiting analysis.  The operations here are the store's contract —
//! which entries a poll returns, and what completing or penalizing an entry
//! does — stated exactly and verified; the surrounding program mirrors each
//! operation with the corresponding SQL statement.

use vstd::prelude::*;

verus! {

#[derive(PartialEq, Eq, Structural, Clone, Copy, Debug)]
pub enum QueueStatus {
    Pending,
    Completed,
}

/// One queue entry.  `attempts` counts permanent-failure processing cycles.
#[derive(Clone, Copy, Debug)]
pub struct QueueEntry {
    pub id: u64,
    pub capture_id: u64,
    pub status: QueueStatus,
    pub attempts: u32,
    pub created_at: u64,
    pub last_attempt: Option<u64>,
}

/// An entry may be processed only while it is pending and under the attempt
/// ceiling of three.
pub open spec fn eligible(e: QueueEntry) -> bool {
    e.status == QueueStatus::Pending && e.attempts < 3
}

/// The capture ids of the first `remaining` eligible entries of `entries`,
/// scanning from position `i` on.
pub open spec fn selection_from(entries: Seq<QueueEntry>, i: int, remaining: nat) -> Seq<u64>
    decreases entries.len() - i when 0 <= i <= entries.len()
{
    if i >= entries.len() || remaining == 0 {
        Seq::empty()
    } else if eligible(entries[i]) {
        seq![entries[i].capture_id] + selection_from(entries, i + 1, (remaining - 1) as nat)
    } else {
        selection_from(entries, i + 1, remaining)
    }
}

/// Every selected id belongs to an eligible entry at or after `i`.
proof fn lemma_selection_sound(entries: Seq<QueueEntry>, i: int, remaining: nat, cid: u64)
    requires
        0 <= i <= entries.len(),
        selection_from(entries, i, remaining).contains(cid),
    ensures
        exists|k: int|
            i <= k < entries.len() && #[trigger] eligible(entries[k]) && entries[k].capture_id
                == cid,
    decreases entries.len() - i,
{
    if i >= entries.len() || remaining == 0 {
    } else if eligible(entries[i]) {
        if entries[i].capture_id == cid {
        } else {
            assert(selection_from(entries, i + 1, (remaining - 1) as nat).contains(cid)) by {
                let s = selection_from(entries, i, remaining);
                let idx = choose|idx: int| 0 <= idx < s.len() && s[idx] == cid;
                assert(selection_from(entries, i + 1, (remaining - 1) as nat)[idx - 1] == cid);
            }
            lemma_selection_sound(entries, i + 1, (remaining - 1) as nat, cid);
        }
    } else {
        lemma_selection_sound(entries, i + 1, remaining, cid);
    }
}

/// With unique capture ids, no id is selected twice.
proof fn lemma_selection_distinct(entries: Seq<QueueEntry>, i: int, remaining: nat)
    requires
        0 <= i <= entries.len(),
        forall|a: int, b: int|
            0 <= a < b < entries.len() ==> entries[a].capture_id != entries[b].capture_id,
    ensures
        forall|a: int, b: int|
            0 <= a < b < selection_from(entries, i, remaining).len() ==> selection_from(
                entries,
                i,
                remaining,
            )[a] != selection_from(entries, i, remaining)[b],
    decreases entries.len() - i,
{
    if i >= entries.len() || remaining == 0 {
        assert(selection_from(entries, i, remaining).len() == 0);
    } else if eligible(entries[i]) {
        lemma_selection_distinct(entries, i + 1, (remaining - 1) as nat);
        let rest = selection_from(entries, i + 1, (remaining - 1) as nat);
        let whole = seq![entries[i].capture_id] + rest;
        assert(selection_from(entries, i, remaining) == whole);
        assert forall|a: int, b: int| 0 <= a < b < whole.len() implies whole[a] != whole[b] by {
            if a == 0 {
                assert(whole[b] == rest[b - 1]);
                assert(rest.contains(rest[b - 1]));
                lemma_selection_sound(entries, i + 1, (remaining - 1) as nat, rest[b - 1]);
                let k = choose|k: int|
                    i + 1 <= k < entries.len() && #[trigger] eligible(entries[k])
                        && entries[k].capture_id == rest[b - 1];
                assert(entries[i].capture_id != entries[k].capture_id);
            } else {
                assert(whole[a] == rest[a - 1]);
                assert(whole[b] == rest[b - 1]);
            }
        }
    } else {
        lemma_selection_distinct(entries, i + 1, remaining);
        assert(selection_from(entries, i, remaining) == selection_from(entries, i + 1, remaining));
    }
}

/// The queue: entries ordered oldest first, one per capture.
pub struct AnalysisQueue {
    pub entries: Vec<QueueEntry>,
}

impl AnalysisQueue {
    /// Entries are unique per capture and ordered by creation time.
    pub open spec fn wf(self) -> bool {
        &&& forall|i: int, j: int|
            0 <= i < j < self.entries.len() ==> self.entries[i].capture_id
                != self.entries[j].capture_id
        &&& forall|i: int, j: int|
            0 <= i <= j < self.entries.len() ==> self.entries[i].created_at
                <= self.entries[j].created_at
    }

    /// An empty queue.
    pub fn new() -> (r: AnalysisQueue)
        ensures
            r.wf(),
            r.entries@ =~= Seq::<QueueEntry>::empty(),
    {
        AnalysisQueue { entries: Vec::new() }
    }

    /// Whether some entry already exists for this capture.
    pub open spec fn spec_has_capture(self, capture_id: u64) -> bool {
        exists|i: int|
            0 <= i < self.entries.len() && #[trigger] self.entries[i as int].capture_id
                == capture_id
    }

    fn has_capture(&self, capture_id: u64) -> (r: bool)
        ensures
            r == self.spec_has_capture(capture_id),
    {
        let mut i: usize = 0;
        while i < self.entries.len()
            invariant
                i <= self.entries.len(),
                forall|k: int| 0 <= k < i ==> self.entries[k].capture_id != capture_id,
            decreases self.entries.len() - i,
        {
            if self.entries[i].capture_id == capture_id {
                return true;
            }
            i = i + 1;
        }
        false
    }

    /// Enqueues a capture for analysis: a fresh pending entry with zero
    /// attempts, unless the capture already has one (then nothing changes).
    pub fn enqueue(&mut self, id: u64, capture_id: u64, now: u64)
        requires
            old(self).wf(),
            forall|i: int|
                0 <= i < old(self).entries.len() ==> #[trigger] old(self).entries[i].created_at
                    <= now,
        ensures
            final(self).wf(),
            old(self).spec_has_capture(capture_id) ==> final(self).entries@ == old(
                self,
            ).entries@,
            !old(self).spec_has_capture(capture_id) ==> final(self).entries@ == old(
                self,
            ).entries@.push(
                QueueEntry {
                    id,
                    capture_id,
                    status: QueueStatus::Pending,
                    attempts: 0,
                    created_at: now,
                    last_attempt: None,
                },
            ),
    {
        if !self.has_capture(capture_id) {
            self.entries.push(
                QueueEntry {
                    id,
                    capture_id,
                    status: QueueStatus::Pending,
                    attempts: 0,
                    created_at: now,
                    last_attempt: None,
                },
            );
        }
    }

    /// Poll: the capture ids of the oldest eligible entries, at most `limit`
    /// of them, in queue order.  An entry at the attempt ceiling is never
    /// returned, whatever its status.
    pub fn fetch_pending(&self, limit: usize) -> (r: Vec<u64>)
        requires
            self.wf(),
        ensures
            r@ == selection_from(self.entries@, 0, limit as nat),
            forall|i: int|
                0 <= i < self.entries.len() && #[trigger] self.entries[i].attempts >= 3
                    ==> !r@.contains(self.entries[i].capture_id),
            forall|i: int|
                0 <= i < self.entries.len() && #[trigger] self.entries[i].status
                    != QueueStatus::Pending ==> !r@.contains(self.entries[i].capture_id),
            forall|j: int|
                0 <= j < r.len() ==> (exists|e: int|
                    0 <= e < self.entries.len() && #[trigger] eligible(self.entries[e])
                        && self.entries[e].capture_id == #[trigger] r[j]),
            forall|a: int, b: int| 0 <= a < b < r.len() ==> r[a] != r[b],
            r.len() <= limit,
    {
        let mut out: Vec<u64> = Vec::new();
        let mut i: usize = 0;
        while i < self.entries.len() && out.len() < limit
            invariant
                i <= self.entries.len(),
                out.len() <= limit,
                selection_from(self.entries@, 0, limit as nat) == out@ + selection_from(
                    self.entries@,
                    i as int,
                    (limit - out.len()) as nat,
                ),
            decreases self.entries.len() - i,
        {
            let e = self.entries[i];
            if e.status == QueueStatus::Pending && e.attempts < 3 {
                proof {
                    assert(selection_from(self.entries@, i as int, (limit - out.len()) as nat)
                        =~= seq![e.capture_id] + selection_from(
                        self.entries@,
                        i + 1,
                        (limit - out.len() - 1) as nat,
                    ));
                    assert(out@.push(e.capture_id) + selection_from(
                        self.entries@,
                        i + 1,
                        (limit - out.len() - 1) as nat,
                    ) =~= out@ + (seq![e.capture_id] + selection_from(
                        self.entries@,
                        i + 1,
                        (limit - out.len() - 1) as nat,
                    )));
                }
                out.push(e.capture_id);
            } else {
                proof {
                    assert(selection_from(self.entries@, i as int, (limit - out.len()) as nat)
                        =~= selection_from(self.entries@, i + 1, (limit - out.len()) as nat));
                }
            }
            i = i + 1;
        }
        proof {
            assert(selection_from(self.entries@, i as int, (limit - out.len()) as nat)
                =~= Seq::<u64>::empty());
            assert(out@ + Seq::<u64>::empty() =~= out@);
            assert forall|k: int|
                0 <= k < self.entries.len() && !eligible(self.entries@[k]) implies !out@.contains(
                self.entries@[k].capture_id,
            ) by {
                if out@.contains(self.entries@[k].capture_id) {
                    lemma_selection_sound(
                        self.entries@,
                        0,
                        limit as nat,
                        self.entries@[k].capture_id,
                    );
                }
            }
            assert forall|j: int| 0 <= j < out.len() implies (exists|e: int|
                0 <= e < self.entries.len() && #[trigger] eligible(self.entries@[e])
                    && self.entries@[e].capture_id == #[trigger] out@[j]) by {
                assert(out@.contains(out@[j]));
                lemma_selection_sound(self.entries@, 0, limit as nat, out@[j]);
            }
            lemma_selection_distinct(self.entries@, 0, limit as nat);
        }
        out
    }

    /// Marks every entry of this capture completed, stamping the attempt
    /// time.  Nothing else changes.
    pub fn mark_completed(&mut self, capture_id: u64, now: u64)
        requires
            old(self).wf(),
        ensures
            final(self).wf(),
            final(self).entries.len() == old(self).entries.len(),
            forall|i: int|
                0 <= i < old(self).entries.len() && old(self).entries[i].capture_id == capture_id
                    ==> final(self).entries[i] == (QueueEntry {
                    status: QueueStatus::Completed,
                    last_attempt: Some(now),
                    ..old(self).entries[i]
                }),
            forall|i: int|
                0 <= i < old(self).entries.len() && old(self).entries[i].capture_id != capture_id
                    ==> final(self).entries[i] == old(self).entries[i],
    {
        let n = self.entries.len();
        let mut i: usize = 0;
        while i < n
            invariant
                n == self.entries.len(),
                i <= n,
                forall|k: int|
                    0 <= k < i && #[trigger] old(self).entries[k].capture_id == capture_id
                        ==> self.entries[k] == (QueueEntry {
                        status: QueueStatus::Completed,
                        last_attempt: Some(now),
                        ..old(self).entries[k]
                    }),
                forall|k: int|
                    0 <= k < i && old(self).entries[k].capture_id != capture_id
                        ==> #[trigger] self.entries[k] == old(self).entries[k],
                forall|k: int| i <= k < n ==> #[trigger] self.entries[k] == old(self).entries[k],
            decreases n - i,
        {
            let e = self.entries[i];
            if e.capture_id == capture_id {
                self.entries.set(
                    i,
                    QueueEntry {
                        status: QueueStatus::Completed,
                        last_attempt: Some(now),
                        ..e
                    },
                );
            }
            i = i + 1;
        }
    }

    /// Adds one permanent-failure cycle to every entry of this capture,
    /// stamping the attempt time.  Status stays as it was: the entry simply
    /// becomes ineligible once it reaches the ceiling.
    pub fn increment_attempts(&mut self, capture_id: u64, now: u64)
        requires
            old(self).wf(),
            forall|i: int|
                0 <= i < old(self).entries.len() && #[trigger] old(self).entries[i].capture_id
                    == capture_id ==> old(self).entries[i].attempts < u32::MAX,
        ensures
            final(self).wf(),
            final(self).entries.len() == old(self).entries.len(),
            forall|i: int|
                0 <= i < old(self).entries.len() && old(self).entries[i].capture_id == capture_id
                    ==> final(self).entries[i] == (QueueEntry {
                    attempts: (old(self).entries[i].attempts + 1) as u32,
                    last_attempt: Some(now),
                    ..old(self).entries[i]
                }),
            forall|i: int|
                0 <= i < old(self).entries.len() && old(self).entries[i].capture_id != capture_id
                    ==> final(self).entries[i] == old(self).entries[i],
    {
        let n = self.entries.len();
        let mut i: usize = 0;
        while i < n
            invariant
                n == self.entries.len(),
                i <= n,
                forall|k: int|
                    0 <= k < n && #[trigger] old(self).entries[k].capture_id == capture_id ==> old(
                        self,
                    ).entries[k].attempts < u32::MAX,
                forall|k: int|
                    0 <= k < i && #[trigger] old(self).entries[k].capture_id == capture_id
                        ==> self.entries[k] == (QueueEntry {
                        attempts: (old(self).entries[k].attempts + 1) as u32,
                        last_attempt: Some(now),
                        ..old(self).entries[k]
                    }),
                forall|k: int|
                    0 <= k < i && old(self).entries[k].capture_id != capture_id
                        ==> #[trigger] self.entries[k] == old(self).entries[k],
                forall|k: int| i <= k < n ==> #[trigger] self.entries[k] == old(self).entries[k],
            decreases n - i,
        {
            let e = self.entries[i];
            if e.capture_id == capture_id {
                self.entries.set(
                    i,
                    QueueEntry { attempts: e.attempts + 1, last_attempt: Some(now), ..e },
                );
            }
            i = i + 1;
        }
    }
}

} // verus!
