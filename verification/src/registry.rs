//! The task registry: the single source of truth for observable download
//! state, together with the record of which task currently owns a control
//! channel.
//!
//! The registry owns the task records; workers take snapshots and write
//! mutations back through the operations here. Identifiers are unique, so
//! for any id at most one record — and with it at most one control channel —
//! ever exists.

use vstd::prelude::*;

use crate::strutil::str_eq;
use crate::task::{
    copy_file_name, copy_file_path, copy_id_string, file_name_from_url, is_copy_task,
    is_fresh_task, join_path, lemma_copy_id_injective, lemma_copy_id_ne, new_task, spec_copy_id,
    spec_task_id, task_id_string, task_wf, DownloadStatus, DownloadTask,
};

verus! {

/// One registry slot: the task record and whether a control channel for it
/// currently lives in the channel map.
pub struct TaskEntry {
    pub task: DownloadTask,
    pub has_channel: bool,
}

impl Clone for TaskEntry {
    fn clone(&self) -> (res: Self)
        ensures
            res == *self,
    {
        TaskEntry { task: self.task.clone(), has_channel: self.has_channel }
    }
}

/// No two entries share an identifier.
pub open spec fn ids_unique(es: Seq<TaskEntry>) -> bool {
    forall|i: int, j: int|
        0 <= i < j < es.len() ==> (#[trigger] es[i]).task.id@ != (#[trigger] es[j]).task.id@
}

/// Whether some entry carries the identifier.
pub open spec fn has_id(es: Seq<TaskEntry>, id: Seq<char>) -> bool {
    exists|i: int| 0 <= i < es.len() && (#[trigger] es[i]).task.id@ == id
}

/// The index of the entry carrying the identifier; meaningful when `has_id`.
pub open spec fn idx_of(es: Seq<TaskEntry>, id: Seq<char>) -> int {
    choose|i: int| 0 <= i < es.len() && (#[trigger] es[i]).task.id@ == id
}

/// The task registered under the identifier; meaningful when `has_id`.
pub open spec fn task_at(es: Seq<TaskEntry>, id: Seq<char>) -> DownloadTask {
    es[idx_of(es, id)].task
}

/// The in-memory registry.
pub struct Registry {
    pub entries: Vec<TaskEntry>,
}

/// Well-formedness: identifiers unique, every record well formed.
pub open spec fn registry_wf(r: Registry) -> bool {
    &&& ids_unique(r.entries@)
    &&& forall|i: int| 0 <= i < r.entries@.len() ==> task_wf((#[trigger] r.entries@[i]).task)
}

/// With unique identifiers, any index whose entry matches `id` is the index.
pub proof fn lemma_idx_unique(es: Seq<TaskEntry>, id: Seq<char>, i: int)
    requires
        ids_unique(es),
        0 <= i < es.len(),
        es[i].task.id@ == id,
    ensures
        has_id(es, id),
        idx_of(es, id) == i,
{
    assert(has_id(es, id));
    let j = idx_of(es, id);
    if i < j {
        assert(es[i].task.id@ != es[j].task.id@);
    } else if j < i {
        assert(es[j].task.id@ != es[i].task.id@);
    }
}

/// For every registered task at any time, the written bytes never exceed a
/// known total, and the percentage is a percentage.
pub proof fn lemma_progress_bounded(r: Registry, i: int)
    requires
        registry_wf(r),
        0 <= i < r.entries@.len(),
    ensures
        r.entries@[i].task.total_size > 0 ==> r.entries@[i].task.downloaded_size
            <= r.entries@[i].task.total_size,
        r.entries@[i].task.progress <= 100,
{
    assert(task_wf(r.entries@[i].task));
}

/// For any identifier, at most one registry slot — and with it at most one
/// control channel and at most one running worker's record — exists.
pub proof fn lemma_channel_unique(r: Registry, id: Seq<char>, i: int, j: int)
    requires
        registry_wf(r),
        0 <= i < r.entries@.len(),
        0 <= j < r.entries@.len(),
        r.entries@[i].task.id@ == id,
        r.entries@[j].task.id@ == id,
    ensures
        i == j,
{
    if i < j {
        assert(r.entries@[i].task.id@ != r.entries@[j].task.id@);
    } else if j < i {
        assert(r.entries@[j].task.id@ != r.entries@[i].task.id@);
    }
}

impl Registry {
    /// An empty registry.
    pub fn new() -> (r: Registry)
        ensures
            registry_wf(r),
            r.entries@.len() == 0,
    {
        Registry { entries: Vec::new() }
    }

    /// Finds the slot of an identifier.
    fn find_index(&self, id: &str) -> (r: Option<usize>)
        requires
            registry_wf(*self),
        ensures
            match r {
                Some(i) => i < self.entries@.len() && self.entries@[i as int].task.id@ == id@
                    && has_id(self.entries@, id@) && idx_of(self.entries@, id@) == i,
                None => !has_id(self.entries@, id@),
            },
    {
        let n = self.entries.len();
        let mut i: usize = 0;
        while i < n
            invariant
                registry_wf(*self),
                n == self.entries@.len(),
                i <= n,
                forall|j: int| 0 <= j < i ==> (#[trigger] self.entries@[j]).task.id@ != id@,
            decreases n - i,
        {
            if str_eq(self.entries[i].task.id.as_str(), id) {
                proof {
                    lemma_idx_unique(self.entries@, id@, i as int);
                }
                return Some(i);
            }
            i += 1;
        }
        None
    }

    /// A snapshot of the task registered under `id`.
    pub fn get_task(&self, id: &str) -> (r: Option<DownloadTask>)
        requires
            registry_wf(*self),
        ensures
            match r {
                Some(t) => has_id(self.entries@, id@) && t == task_at(self.entries@, id@),
                None => !has_id(self.entries@, id@),
            },
    {
        match self.find_index(id) {
            Some(i) => Some(self.entries[i].task.clone()),
            None => None,
        }
    }

    /// A snapshot of every task, in registration order.
    pub fn tasks(&self) -> (r: Vec<DownloadTask>)
        ensures
            r@.len() == self.entries@.len(),
            forall|i: int| 0 <= i < r@.len() ==> r@[i] == (#[trigger] self.entries@[i]).task,
    {
        let n = self.entries.len();
        let mut r: Vec<DownloadTask> = Vec::new();
        let mut i: usize = 0;
        while i < n
            invariant
                n == self.entries@.len(),
                i <= n,
                r@.len() == i,
                forall|j: int| 0 <= j < i ==> r@[j] == (#[trigger] self.entries@[j]).task,
            decreases n - i,
        {
            r.push(self.entries[i].task.clone());
            i += 1;
        }
        r
    }

    /// Inserts the record, replacing any record under the same identifier.
    pub fn upsert_task(&mut self, t: DownloadTask, has_channel: bool)
        requires
            registry_wf(*old(self)),
            task_wf(t),
        ensures
            registry_wf(*final(self)),
            has_id(final(self).entries@, t.id@),
            task_at(final(self).entries@, t.id@) == t,
            final(self).entries@[idx_of(final(self).entries@, t.id@)].has_channel == has_channel,
            if has_id(old(self).entries@, t.id@) {
                final(self).entries@ == old(self).entries@.update(
                    idx_of(old(self).entries@, t.id@),
                    (TaskEntry { task: t, has_channel }),
                )
            } else {
                final(self).entries@ == old(self).entries@.push(
                    (TaskEntry { task: t, has_channel }),
                )
            },
    {
        let entry = TaskEntry { task: t, has_channel };
        let ghost tid = entry.task.id@;
        match self.find_index(entry.task.id.as_str()) {
            Some(i) => {
                self.entries.set(i, entry);
                proof {
                    let es = final(self).entries@;
                    assert forall|a: int, b: int| 0 <= a < b < es.len() implies (
                    #[trigger] es[a]).task.id@ != (#[trigger] es[b]).task.id@ by {
                        assert(old(self).entries@[a].task.id@ != old(self).entries@[b].task.id@);
                        if a != i && b != i {
                            assert(es[a] == old(self).entries@[a]);
                        }
                    }
                    lemma_idx_unique(es, tid, i as int);
                }
            },
            None => {
                self.entries.push(entry);
                proof {
                    let es = final(self).entries@;
                    let n = es.len() - 1;
                    assert forall|a: int, b: int| 0 <= a < b < es.len() implies (
                    #[trigger] es[a]).task.id@ != (#[trigger] es[b]).task.id@ by {
                        if b < n {
                            assert(old(self).entries@[a].task.id@ != old(
                                self,
                            ).entries@[b].task.id@);
                        } else {
                            assert(es[b].task.id@ == tid);
                            assert(es[a] == old(self).entries@[a]);
                        }
                    }
                    lemma_idx_unique(es, tid, n);
                }
            },
        }
    }

    /// Removes the record under `id`; returns its file path so the caller can
    /// delete the file, best effort.
    pub fn remove_task(&mut self, id: &str) -> (r: Option<String>)
        requires
            registry_wf(*old(self)),
        ensures
            registry_wf(*final(self)),
            !has_id(final(self).entries@, id@),
            match r {
                Some(p) => has_id(old(self).entries@, id@) && p@ == task_at(
                    old(self).entries@,
                    id@,
                ).file_path@ && final(self).entries@ == old(self).entries@.remove(
                    idx_of(old(self).entries@, id@),
                ),
                None => !has_id(old(self).entries@, id@) && final(self).entries@ == old(
                    self,
                ).entries@,
            },
    {
        match self.find_index(id) {
            Some(i) => {
                let entry = self.entries.remove(i);
                proof {
                    let es = final(self).entries@;
                    let oes = old(self).entries@;
                    assert forall|a: int, b: int| 0 <= a < b < es.len() implies (
                    #[trigger] es[a]).task.id@ != (#[trigger] es[b]).task.id@ by {
                        let a0 = if a < i { a } else { a + 1 };
                        let b0 = if b < i { b } else { b + 1 };
                        assert(es[a] == oes[a0] && es[b] == oes[b0]);
                        assert(oes[a0].task.id@ != oes[b0].task.id@);
                    }
                    assert forall|j: int| 0 <= j < es.len() implies (#[trigger] es[j]).task.id@
                        != id@ by {
                        let j0 = if j < i { j } else { j + 1 };
                        assert(es[j] == oes[j0]);
                        if j0 < i {
                            assert(oes[j0].task.id@ != oes[i as int].task.id@);
                        } else {
                            assert(oes[i as int].task.id@ != oes[j0].task.id@);
                        }
                    }
                    assert(!has_id(es, id@));
                }
                Some(entry.task.file_path)
            },
            None => None,
        }
    }

    /// Marks the task as downloading so a worker can be spawned; refuses an
    /// unknown task and one already downloading.
    pub fn start_task(&mut self, id: &str) -> (r: Result<DownloadTask, &'static str>)
        requires
            registry_wf(*old(self)),
        ensures
            registry_wf(*final(self)),
            match r {
                Ok(t) => {
                    let i = idx_of(old(self).entries@, id@);
                    &&& has_id(old(self).entries@, id@)
                    &&& !(task_at(old(self).entries@, id@).status is Downloading)
                    &&& t == (DownloadTask {
                        status: DownloadStatus::Downloading,
                        ..task_at(old(self).entries@, id@)
                    })
                    &&& final(self).entries@ == old(self).entries@.update(
                        i,
                        (TaskEntry { task: t, ..old(self).entries@[i] }),
                    )
                },
                Err(_) => {
                    &&& final(self).entries@ == old(self).entries@
                    &&& (!has_id(old(self).entries@, id@) || task_at(
                        old(self).entries@,
                        id@,
                    ).status is Downloading)
                },
            },
    {
        match self.find_index(id) {
            Some(i) => {
                if matches!(self.entries[i].task.status, DownloadStatus::Downloading) {
                    Err("task is already downloading")
                } else {
                    let mut t = self.entries[i].task.clone();
                    t.status = DownloadStatus::Downloading;
                    let has_channel = self.entries[i].has_channel;
                    let snapshot = t.clone();
                    self.entries.set(i, TaskEntry { task: t, has_channel });
                    proof {
                        lemma_update_same_id_wf(
                            old(self).entries@,
                            final(self).entries@,
                            i as int,
                        );
                    }
                    Ok(snapshot)
                }
            },
            None => Err("download task does not exist"),
        }
    }

    /// Pauses a downloading task; any other state is left alone.
    pub fn pause_task(&mut self, id: &str) -> (r: Option<DownloadTask>)
        requires
            registry_wf(*old(self)),
        ensures
            registry_wf(*final(self)),
            match r {
                Some(t) => {
                    let i = idx_of(old(self).entries@, id@);
                    &&& has_id(old(self).entries@, id@)
                    &&& task_at(old(self).entries@, id@).status is Downloading
                    &&& t == (DownloadTask {
                        status: DownloadStatus::Paused,
                        ..task_at(old(self).entries@, id@)
                    })
                    &&& final(self).entries@ == old(self).entries@.update(
                        i,
                        (TaskEntry { task: t, ..old(self).entries@[i] }),
                    )
                },
                None => {
                    &&& final(self).entries@ == old(self).entries@
                    &&& (!has_id(old(self).entries@, id@) || !(task_at(
                        old(self).entries@,
                        id@,
                    ).status is Downloading))
                },
            },
    {
        match self.find_index(id) {
            Some(i) => {
                if matches!(self.entries[i].task.status, DownloadStatus::Downloading) {
                    let mut t = self.entries[i].task.clone();
                    t.status = DownloadStatus::Paused;
                    let has_channel = self.entries[i].has_channel;
                    let snapshot = t.clone();
                    self.entries.set(i, TaskEntry { task: t, has_channel });
                    proof {
                        lemma_update_same_id_wf(
                            old(self).entries@,
                            final(self).entries@,
                            i as int,
                        );
                    }
                    Some(snapshot)
                } else {
                    None
                }
            },
            None => None,
        }
    }

    /// Cancels a task that is not already terminal; returns the paused record
    /// and its file path so the caller deletes the partial file. A terminal
    /// task is never transitioned out of.
    pub fn cancel_task(&mut self, id: &str) -> (r: Option<(DownloadTask, String)>)
        requires
            registry_wf(*old(self)),
        ensures
            registry_wf(*final(self)),
            match r {
                Some((t, p)) => {
                    let i = idx_of(old(self).entries@, id@);
                    &&& has_id(old(self).entries@, id@)
                    &&& !crate::task::is_terminal(task_at(old(self).entries@, id@).status)
                    &&& t == (DownloadTask {
                        status: DownloadStatus::Cancelled,
                        ..task_at(old(self).entries@, id@)
                    })
                    &&& p@ == task_at(old(self).entries@, id@).file_path@
                    &&& final(self).entries@ == old(self).entries@.update(
                        i,
                        (TaskEntry { task: t, ..old(self).entries@[i] }),
                    )
                },
                None => {
                    &&& final(self).entries@ == old(self).entries@
                    &&& (!has_id(old(self).entries@, id@) || crate::task::is_terminal(
                        task_at(old(self).entries@, id@).status,
                    ))
                },
            },
    {
        match self.find_index(id) {
            Some(i) => {
                let terminal = matches!(
                    self.entries[i].task.status,
                    DownloadStatus::Completed | DownloadStatus::Cancelled | DownloadStatus::Failed
                );
                if terminal {
                    None
                } else {
                    let mut t = self.entries[i].task.clone();
                    t.status = DownloadStatus::Cancelled;
                    let has_channel = self.entries[i].has_channel;
                    let snapshot = t.clone();
                    let path = t.file_path.clone();
                    self.entries.set(i, TaskEntry { task: t, has_channel });
                    proof {
                        lemma_update_same_id_wf(
                            old(self).entries@,
                            final(self).entries@,
                            i as int,
                        );
                    }
                    Some((snapshot, path))
                }
            },
            None => None,
        }
    }

    /// Marks a paused task as downloading again and restores its control
    /// channel; refuses an unknown task and one not paused.
    pub fn resume_task(&mut self, id: &str) -> (r: Result<DownloadTask, &'static str>)
        requires
            registry_wf(*old(self)),
        ensures
            registry_wf(*final(self)),
            match r {
                Ok(t) => {
                    let i = idx_of(old(self).entries@, id@);
                    &&& has_id(old(self).entries@, id@)
                    &&& task_at(old(self).entries@, id@).status is Paused
                    &&& t == (DownloadTask {
                        status: DownloadStatus::Downloading,
                        ..task_at(old(self).entries@, id@)
                    })
                    &&& final(self).entries@ == old(self).entries@.update(
                        i,
                        (TaskEntry { task: t, has_channel: true }),
                    )
                },
                Err(_) => {
                    &&& final(self).entries@ == old(self).entries@
                    &&& (!has_id(old(self).entries@, id@) || !(task_at(
                        old(self).entries@,
                        id@,
                    ).status is Paused))
                },
            },
    {
        match self.find_index(id) {
            Some(i) => {
                if matches!(self.entries[i].task.status, DownloadStatus::Paused) {
                    let mut t = self.entries[i].task.clone();
                    t.status = DownloadStatus::Downloading;
                    let snapshot = t.clone();
                    self.entries.set(i, TaskEntry { task: t, has_channel: true });
                    proof {
                        lemma_update_same_id_wf(
                            old(self).entries@,
                            final(self).entries@,
                            i as int,
                        );
                    }
                    Ok(snapshot)
                } else {
                    Err("task is not paused, cannot resume")
                }
            },
            None => Err("download task does not exist"),
        }
    }

    /// Marks the task as failed, or inserts the worker's snapshot as failed
    /// when the record has gone missing, keeping the registry self-consistent.
    pub fn fail_task(&mut self, id: &str, fallback: &DownloadTask) -> (t: DownloadTask)
        requires
            registry_wf(*old(self)),
            task_wf(*fallback),
            fallback.id@ == id@,
        ensures
            registry_wf(*final(self)),
            t.status is Failed,
            has_id(final(self).entries@, id@),
            task_at(final(self).entries@, id@) == t,
            if has_id(old(self).entries@, id@) {
                t == (DownloadTask {
                    status: DownloadStatus::Failed,
                    ..task_at(old(self).entries@, id@)
                }) && final(self).entries@ == old(self).entries@.update(
                    idx_of(old(self).entries@, id@),
                    (TaskEntry {
                        task: t,
                        ..old(self).entries@[idx_of(old(self).entries@, id@)]
                    }),
                )
            } else {
                &&& t == (DownloadTask { status: DownloadStatus::Failed, ..*fallback })
                &&& final(self).entries@ == old(self).entries@.push(
                    (TaskEntry { task: t, has_channel: false }),
                )
            },
    {
        match self.find_index(id) {
            Some(i) => {
                let mut t = self.entries[i].task.clone();
                t.status = DownloadStatus::Failed;
                let has_channel = self.entries[i].has_channel;
                let snapshot = t.clone();
                self.entries.set(i, TaskEntry { task: t, has_channel });
                proof {
                    lemma_update_same_id_wf(old(self).entries@, final(self).entries@, i as int);
                }
                snapshot
            },
            None => {
                let mut t = fallback.clone();
                t.status = DownloadStatus::Failed;
                let snapshot = t.clone();
                self.entries.push(TaskEntry { task: t, has_channel: false });
                proof {
                    let es = final(self).entries@;
                    let n = es.len() - 1;
                    assert forall|a: int, b: int| 0 <= a < b < es.len() implies (
                    #[trigger] es[a]).task.id@ != (#[trigger] es[b]).task.id@ by {
                        if b < n {
                            assert(old(self).entries@[a].task.id@ != old(
                                self,
                            ).entries@[b].task.id@);
                        } else {
                            assert(es[a] == old(self).entries@[a]);
                        }
                    }
                    lemma_idx_unique(es, id@, n);
                }
                snapshot
            },
        }
    }

    /// Notes that the worker for `id` has exited and its control channel is
    /// gone from the channel map.
    pub fn clear_channel(&mut self, id: &str)
        requires
            registry_wf(*old(self)),
        ensures
            registry_wf(*final(self)),
            if has_id(old(self).entries@, id@) {
                final(self).entries@ == old(self).entries@.update(
                    idx_of(old(self).entries@, id@),
                    (TaskEntry {
                        has_channel: false,
                        ..old(self).entries@[idx_of(old(self).entries@, id@)]
                    }),
                )
            } else {
                final(self).entries@ == old(self).entries@
            },
    {
        match self.find_index(id) {
            Some(i) => {
                let t = self.entries[i].task.clone();
                self.entries.set(i, TaskEntry { task: t, has_channel: false });
                proof {
                    lemma_update_same_id_wf(old(self).entries@, final(self).entries@, i as int);
                }
            },
            None => {},
        }
    }

    /// Finds the first non-copy task registered for the URL.
    pub fn find_by_url(&self, url: &str) -> (r: Option<DownloadTask>)
        requires
            registry_wf(*self),
        ensures
            match r {
                Some(t) => has_url_match(self.entries@, url@) && url_match_at(
                    self.entries@,
                    url@,
                    first_url_match(self.entries@, url@),
                ) && t == self.entries@[first_url_match(self.entries@, url@)].task,
                None => !has_url_match(self.entries@, url@),
            },
    {
        let n = self.entries.len();
        let mut i: usize = 0;
        while i < n
            invariant
                n == self.entries@.len(),
                i <= n,
                forall|j: int| 0 <= j < i ==> !url_match_at(self.entries@, url@, j),
            decreases n - i,
        {
            if !self.entries[i].task.is_copy && str_eq(self.entries[i].task.url.as_str(), url) {
                proof {
                    lemma_first_url(self.entries@, url@, i as int);
                }
                return Some(self.entries[i].task.clone());
            }
            i += 1;
        }
        proof {
            assert forall|j: int| !url_match_at(self.entries@, url@, j) by {}
        }
        None
    }

    /// Materialises `n` duplicate tasks of an existing one. Each copy shares
    /// the URL and total size, gets a derived identifier, file name and path,
    /// its own control channel, and starts pending; the original's copy count
    /// grows by `n`, saturating. Identifier collisions replace the old record,
    /// as every insertion does.
    pub fn create_copies(&mut self, original_id: &str, n: u32, now_millis: u64) -> (r: Result<
        Vec<String>,
        &'static str,
    >)
        requires
            registry_wf(*old(self)),
        ensures
            registry_wf(*final(self)),
            match r {
                Ok(ids) => copies_created(
                    old(self).entries@,
                    final(self).entries@,
                    ids@,
                    original_id@,
                    n,
                    now_millis,
                ),
                Err(_) => final(self).entries@ == old(self).entries@ && !has_id(
                    old(self).entries@,
                    original_id@,
                ),
            },
    {
        let oi = match self.find_index(original_id) {
            Some(oi) => oi,
            None => {
                return Err("original download task does not exist");
            },
        };
        let ghost oes = old(self).entries@;
        let ghost oid = original_id@;
        let orig = self.entries[oi].task.clone();
        let ghost origt = task_at(oes, oid);
        proof {
            assert(origt == orig);
        }
        let mut ids: Vec<String> = Vec::new();
        let mut k: u64 = 1;
        while k <= n as u64
            invariant
                registry_wf(*self),
                1 <= k <= n as u64 + 1,
                oes == old(self).entries@,
                oid == original_id@,
                ids_unique(oes),
                0 <= oi < oes.len(),
                oes[oi as int].task.id@ == oid,
                origt == oes[oi as int].task,
                origt == orig,
                self.entries@.len() >= oes.len(),
                forall|i: int|
                    0 <= i < oes.len() ==> (#[trigger] self.entries@[i]).task.id@
                        == oes[i].task.id@,
                self.entries@[oi as int] == oes[oi as int],
                forall|i: int|
                    0 <= i < oes.len() && oes[i].task.id@ != oid && !is_some_copy_id(
                        (#[trigger] oes[i]).task.id@,
                        oid,
                        (k - 1) as u32,
                    ) ==> self.entries@[i] == oes[i],
                forall|kk: u32|
                    1 <= kk <= k - 1 ==> {
                        let cid = #[trigger] spec_copy_id(oid, kk);
                        has_id(self.entries@, cid) && is_copy_task(
                            task_at(self.entries@, cid),
                            origt,
                            kk,
                            now_millis,
                        ) && self.entries@[idx_of(self.entries@, cid)].has_channel
                    },
                forall|i: int|
                    oes.len() <= i < self.entries@.len() ==> is_some_copy_id(
                        (#[trigger] self.entries@[i]).task.id@,
                        oid,
                        (k - 1) as u32,
                    ),
                self.entries@.len() <= oes.len() + k - 1,
                ids@.len() == k - 1,
                forall|j: int|
                    0 <= j < k - 1 ==> (#[trigger] ids@[j])@ == spec_copy_id(oid, (j + 1) as u32),
            decreases n as u64 - k + 1,
        {
            let kk: u32 = k as u32;
            let cid = copy_id_string(original_id, kk);
            let cname = copy_file_name(orig.file_name.as_str(), kk);
            let cpath = copy_file_path(orig.file_path.as_str(), cname.as_str());
            let t = new_task(
                cid,
                orig.url.clone(),
                cname,
                cpath,
                orig.total_size,
                now_millis,
                true,
                Some(String::from_str(original_id)),
            );
            let ghost es_pre = self.entries@;
            let ghost newcid = spec_copy_id(oid, kk);
            proof {
                assert(t.id@ == newcid);
                assert(is_copy_task(t, origt, kk, now_millis));
            }
            self.upsert_task(t, true);
            proof {
                let es = self.entries@;
                lemma_copy_id_ne(oid, kk);
                // the replaced or appended slot carries the new copy's id;
                // every other slot is untouched
                if has_id(es_pre, newcid) {
                    let u = idx_of(es_pre, newcid);
                    assert(es == es_pre.update(u, (TaskEntry { task: t, has_channel: true })));
                    assert(es_pre[u].task.id@ == newcid);
                    assert(es_pre[oi as int].task.id@ == oid);
                    assert(u != oi);
                } else {
                    assert(es == es_pre.push((TaskEntry { task: t, has_channel: true })));
                }
                assert forall|kp: u32| 1 <= kp <= kk - 1 implies {
                    let cidp = #[trigger] spec_copy_id(oid, kp);
                    has_id(es, cidp) && is_copy_task(task_at(es, cidp), origt, kp, now_millis)
                        && es[idx_of(es, cidp)].has_channel
                } by {
                    let cidp = spec_copy_id(oid, kp);
                    let ip = idx_of(es_pre, cidp);
                    assert(has_id(es_pre, cidp));
                    assert(0 <= ip < es_pre.len() && es_pre[ip].task.id@ == cidp);
                    if cidp == newcid {
                        lemma_copy_id_injective(oid, kp, kk);
                        assert(false);
                    }
                    assert(es[ip] == es_pre[ip]);
                    lemma_idx_unique(es, cidp, ip);
                }
                assert forall|i: int|
                    0 <= i < oes.len() && oes[i].task.id@ != oid && !is_some_copy_id(
                        (#[trigger] oes[i]).task.id@,
                        oid,
                        kk,
                    ) implies self.entries@[i] == oes[i] by {
                    assert(!is_some_copy_id(oes[i].task.id@, oid, (kk - 1) as u32));
                    assert(es_pre[i] == oes[i]);
                    if has_id(es_pre, newcid) {
                        let u = idx_of(es_pre, newcid);
                        if i == u {
                            assert(oes[i].task.id@ == newcid);
                            assert(is_some_copy_id(oes[i].task.id@, oid, kk));
                        }
                    }
                }
                assert forall|i: int|
                    oes.len() <= i < self.entries@.len() implies is_some_copy_id(
                        (#[trigger] self.entries@[i]).task.id@,
                        oid,
                        kk,
                    ) by {
                    if i < es_pre.len() {
                        if has_id(es_pre, newcid) && i == idx_of(es_pre, newcid) {
                            assert(es[i].task.id@ == newcid);
                        } else {
                            assert(es[i] == es_pre[i]);
                            assert(is_some_copy_id(es_pre[i].task.id@, oid, (kk - 1) as u32));
                            let kp = choose|kp: u32|
                                1 <= kp <= kk - 1 && es_pre[i].task.id@ == #[trigger] spec_copy_id(
                                    oid,
                                    kp,
                                );
                            assert(es[i].task.id@ == spec_copy_id(oid, kp));
                        }
                    } else {
                        assert(es[i].task.id@ == newcid);
                    }
                }
                assert forall|i: int| 0 <= i < oes.len() implies (
                #[trigger] self.entries@[i]).task.id@ == oes[i].task.id@ by {
                    if has_id(es_pre, newcid) {
                        let u = idx_of(es_pre, newcid);
                        if i == u {
                            assert(es[i].task.id@ == newcid);
                            assert(es_pre[u].task.id@ == newcid);
                        } else {
                            assert(es[i] == es_pre[i]);
                        }
                    } else {
                        assert(es[i] == es_pre[i]);
                    }
                }
                assert(self.entries@[oi as int] == oes[oi as int]);
                // the fresh copy is registered with its channel
                lemma_idx_unique(es, newcid, idx_of(es, newcid));
            }
            ids.push(copy_id_string(original_id, kk));
            k += 1;
        }
        // the original's copy count grows by n, saturating
        let oi2 = match self.find_index(original_id) {
            Some(oi2) => oi2,
            None => {
                proof {
                    lemma_idx_unique(self.entries@, oid, oi as int);
                }
                return Err("original download task does not exist");
            },
        };
        proof {
            lemma_idx_unique(self.entries@, oid, oi as int);
            assert(oi2 == oi);
        }
        let mut t2 = self.entries[oi2].task.clone();
        let bump: u32 = if t2.copy_count > 0xffff_ffffu32 - n {
            0xffff_ffffu32
        } else {
            t2.copy_count + n
        };
        t2.copy_count = bump;
        let hc = self.entries[oi2].has_channel;
        let ghost es_pre2 = self.entries@;
        self.entries.set(oi2, TaskEntry { task: t2, has_channel: hc });
        proof {
            lemma_update_same_id_wf(es_pre2, self.entries@, oi2 as int);
            let es = self.entries@;
            lemma_idx_unique(es, oid, oi as int);
            assert(task_at(es, oid) == es[oi as int].task);
            assert forall|kp: u32| 1 <= kp <= n implies {
                let cidp = #[trigger] spec_copy_id(oid, kp);
                has_id(es, cidp) && is_copy_task(task_at(es, cidp), origt, kp, now_millis)
                    && es[idx_of(es, cidp)].has_channel
            } by {
                let cidp = spec_copy_id(oid, kp);
                let ip = idx_of(es_pre2, cidp);
                assert(has_id(es_pre2, cidp));
                assert(0 <= ip < es_pre2.len() && es_pre2[ip].task.id@ == cidp);
                lemma_copy_id_ne(oid, kp);
                assert(ip != oi);
                assert(es[ip] == es_pre2[ip]);
                lemma_idx_unique(es, cidp, ip);
            }
        }
        Ok(ids)
    }

    /// Creates a download task for a URL. When a non-copy task for the same
    /// URL already exists, a single copy of the first such task is created
    /// instead and its identifier returned. Otherwise a fresh pending task is
    /// registered under a synthesised identifier, with the file name resolved
    /// from the explicit argument or the URL's last path segment, and the
    /// directory from the explicit argument or the given default.
    pub fn create_task(
        &mut self,
        url: String,
        file_name: Option<String>,
        directory: Option<String>,
        default_dir: String,
        now_millis: u64,
    ) -> (id: String)
        requires
            registry_wf(*old(self)),
        ensures
            registry_wf(*final(self)),
            ({
                let oes = old(self).entries@;
                let es = final(self).entries@;
                if has_url_match(oes, url@) {
                    let orig = oes[first_url_match(oes, url@)].task;
                    &&& id@ == spec_copy_id(orig.id@, 1)
                    &&& copies_created(oes, es, seq![id], orig.id@, 1, now_millis)
                } else {
                    let name = match file_name {
                        Some(nm) => nm@,
                        None => crate::task::spec_file_name_from_url(url@),
                    };
                    let dir = match directory {
                        Some(d) => d@,
                        None => default_dir@,
                    };
                    &&& id@ == spec_task_id(now_millis)
                    &&& has_id(es, id@)
                    &&& is_fresh_task(task_at(es, id@), url@, name, dir, now_millis)
                    &&& es[idx_of(es, id@)].has_channel
                    &&& if has_id(oes, id@) {
                        es == oes.update(idx_of(oes, id@), es[idx_of(oes, id@)])
                    } else {
                        es == oes.push(es[es.len() - 1])
                    }
                }
            }),
    {
        let existing = self.find_by_url(url.as_str());
        match existing {
            Some(orig_task) => {
                proof {
                    let i = first_url_match(old(self).entries@, url@);
                    assert(old(self).entries@[i].task.id@ == orig_task.id@);
                    assert(has_id(old(self).entries@, orig_task.id@));
                }
                self.copy_existing(orig_task.id.as_str(), now_millis)
            },
            None => {
                let name: String = match file_name {
                    Some(nm) => nm,
                    None => file_name_from_url(url.as_str()),
                };
                let dir: String = match directory {
                    Some(d) => d,
                    None => default_dir,
                };
                self.insert_fresh(url, name, dir, now_millis)
            },
        }
    }

    /// Creates the single automatic copy of an existing task.
    fn copy_existing(&mut self, original_id: &str, now_millis: u64) -> (id: String)
        requires
            registry_wf(*old(self)),
            has_id(old(self).entries@, original_id@),
        ensures
            registry_wf(*final(self)),
            id@ == spec_copy_id(original_id@, 1),
            copies_created(
                old(self).entries@,
                final(self).entries@,
                seq![id],
                original_id@,
                1,
                now_millis,
            ),
    {
        let r = self.create_copies(original_id, 1, now_millis);
        match r {
            Ok(mut ids) => {
                let ghost iv = ids@;
                let id = ids.remove(0);
                proof {
                    assert(iv =~= seq![id]);
                }
                id
            },
            Err(_) => {
                proof {
                    assert(false);
                }
                String::new()
            },
        }
    }

    /// Registers a fresh pending task for `url` under `dir/name`.
    fn insert_fresh(&mut self, url: String, name: String, dir: String, now_millis: u64) -> (id:
        String)
        requires
            registry_wf(*old(self)),
        ensures
            registry_wf(*final(self)),
            ({
                let oes = old(self).entries@;
                let es = final(self).entries@;
                &&& id@ == spec_task_id(now_millis)
                &&& has_id(es, id@)
                &&& is_fresh_task(task_at(es, id@), url@, name@, dir@, now_millis)
                &&& es[idx_of(es, id@)].has_channel
                &&& if has_id(oes, id@) {
                    es == oes.update(idx_of(oes, id@), es[idx_of(oes, id@)])
                } else {
                    es == oes.push(es[es.len() - 1])
                }
            }),
    {
        let path = join_path(dir.as_str(), name.as_str());
        let idstr = task_id_string(now_millis);
        let id2 = idstr.clone();
        let t = new_task(idstr, url, name, path, 0, now_millis, false, None);
        self.upsert_task(t, true);
        id2
    }
}

/// A non-copy task for the URL sits at index `i`.
pub open spec fn url_match_at(es: Seq<TaskEntry>, url: Seq<char>, i: int) -> bool {
    0 <= i < es.len() && es[i].task.url@ == url && !es[i].task.is_copy
}

/// Some non-copy task for the URL is registered.
pub open spec fn has_url_match(es: Seq<TaskEntry>, url: Seq<char>) -> bool {
    exists|i: int| #[trigger] url_match_at(es, url, i)
}

/// The first registered non-copy task for the URL; meaningful when one exists.
pub open spec fn first_url_match(es: Seq<TaskEntry>, url: Seq<char>) -> int {
    choose|i: int|
        #[trigger] url_match_at(es, url, i) && forall|j: int| 0 <= j < i ==> !url_match_at(
            es,
            url,
            j,
        )
}

/// A minimal match is the first match.
proof fn lemma_first_url(es: Seq<TaskEntry>, url: Seq<char>, i: int)
    requires
        url_match_at(es, url, i),
        forall|j: int| 0 <= j < i ==> !url_match_at(es, url, j),
    ensures
        has_url_match(es, url),
        first_url_match(es, url) == i,
        url_match_at(es, url, first_url_match(es, url)),
{
    assert(has_url_match(es, url));
    let i2 = first_url_match(es, url);
    if i2 < i {
        assert(!url_match_at(es, url, i2));
    } else if i < i2 {
        assert(!url_match_at(es, url, i));
    }
}

/// Whether `id` is the identifier of one of the first `n` copies of a task.
pub open spec fn is_some_copy_id(id: Seq<char>, orig_id: Seq<char>, n: u32) -> bool {
    exists|k: u32| 1 <= k <= n && id == #[trigger] spec_copy_id(orig_id, k)
}

/// What `create_copies` leaves behind: every copy registered with a channel,
/// the original's copy count bumped, everything else untouched, and nothing
/// but copies appended.
pub open spec fn copies_created(
    oes: Seq<TaskEntry>,
    es: Seq<TaskEntry>,
    ids: Seq<String>,
    orig_id: Seq<char>,
    n: u32,
    now: u64,
) -> bool {
    let orig = task_at(oes, orig_id);
    &&& has_id(oes, orig_id)
    &&& ids.len() == n
    &&& forall|j: int| 0 <= j < n ==> (#[trigger] ids[j])@ == spec_copy_id(orig_id, (j + 1) as u32)
    &&& forall|k: u32|
        1 <= k <= n ==> {
            let cid = #[trigger] spec_copy_id(orig_id, k);
            has_id(es, cid) && is_copy_task(task_at(es, cid), orig, k, now) && es[idx_of(
                es,
                cid,
            )].has_channel
        }
    &&& has_id(es, orig_id)
    &&& task_at(es, orig_id) == (DownloadTask {
        copy_count: if orig.copy_count + n <= 0xffff_ffffu32 {
            (orig.copy_count + n) as u32
        } else {
            0xffff_ffffu32
        },
        ..orig
    })
    &&& es.len() >= oes.len()
    &&& forall|i: int| 0 <= i < oes.len() ==> (#[trigger] es[i]).task.id@ == oes[i].task.id@
    &&& forall|i: int|
        0 <= i < oes.len() && oes[i].task.id@ != orig_id && !is_some_copy_id(
            (#[trigger] oes[i]).task.id@,
            orig_id,
            n,
        ) ==> es[i] == oes[i]
    &&& es.len() <= oes.len() + n
    &&& forall|i: int|
        oes.len() <= i < es.len() ==> is_some_copy_id((#[trigger] es[i]).task.id@, orig_id, n)
}

/// The advertised sizes of the first `n` copies, summed.
pub open spec fn copies_total(es: Seq<TaskEntry>, orig_id: Seq<char>, n: u32) -> int
    decreases n,
{
    if n == 0 {
        0
    } else {
        copies_total(es, orig_id, (n - 1) as u32) + task_at(
            es,
            spec_copy_id(orig_id, n),
        ).total_size
    }
}

/// The copies of one original advertise `n` times its size in all: a
/// successful download of a task writes exactly its `total_size` bytes, so
/// the final on-disk sizes of `n` successful copies sum to `n` times the
/// original's size.
pub proof fn lemma_copy_sizes_sum(
    es: Seq<TaskEntry>,
    orig_id: Seq<char>,
    orig: DownloadTask,
    n: u32,
    now: u64,
)
    requires
        forall|k: u32|
            1 <= k <= n ==> has_id(es, #[trigger] spec_copy_id(orig_id, k)) && is_copy_task(
                task_at(es, spec_copy_id(orig_id, k)),
                orig,
                k,
                now,
            ),
    ensures
        copies_total(es, orig_id, n) == n * orig.total_size,
    decreases n,
{
    if n == 0 {
        assert(0int * orig.total_size == 0) by (nonlinear_arith);
    } else {
        lemma_copy_sizes_sum(es, orig_id, orig, (n - 1) as u32, now);
        assert(task_at(es, spec_copy_id(orig_id, n)).total_size == orig.total_size);
        assert(n * orig.total_size == (n - 1) * orig.total_size + orig.total_size)
            by (nonlinear_arith);
    }
}

/// Replacing an entry with one carrying the same identifier and a well-formed
/// task keeps the registry well formed.
proof fn lemma_update_same_id_wf(oes: Seq<TaskEntry>, es: Seq<TaskEntry>, i: int)
    requires
        ids_unique(oes),
        forall|k: int| 0 <= k < oes.len() ==> task_wf((#[trigger] oes[k]).task),
        0 <= i < oes.len(),
        es == oes.update(i, es[i]),
        es.len() == oes.len(),
        es[i].task.id@ == oes[i].task.id@,
        task_wf(es[i].task),
    ensures
        ids_unique(es),
        forall|k: int| 0 <= k < es.len() ==> task_wf((#[trigger] es[k]).task),
{
    assert forall|a: int, b: int| 0 <= a < b < es.len() implies (#[trigger] es[a]).task.id@ != (
    #[trigger] es[b]).task.id@ by {
        assert(oes[a].task.id@ != oes[b].task.id@);
        if a != i {
            assert(es[a] == oes[a]);
        }
        if b != i {
            assert(es[b] == oes[b]);
        }
    }
    assert forall|k: int| 0 <= k < es.len() implies task_wf((#[trigger] es[k]).task) by {
        if k != i {
            assert(es[k] == oes[k]);
        }
    }
}

} // verus!
