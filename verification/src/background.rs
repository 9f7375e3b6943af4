//! Background tasks: labelled tool runs that proceed while the chat goes
//! on, their output, their completion queue and their status reports.
//!
//! Times are milliseconds of a monotonic clock read by the caller.
use vstd::prelude::*;
use crate::num::{dec, push_u64};
use crate::text::{append_str, chars_eq, chars_of, string_views};

verus! {

#[derive(Debug, Clone, Copy, PartialEq, Eq, Structural)]
pub enum BackgroundTaskStatus {
    Running,
    Completed,
    Failed,
    Cancelled,
}

pub open spec fn status_name(s: BackgroundTaskStatus) -> Seq<char> {
    match s {
        BackgroundTaskStatus::Running => "Running"@,
        BackgroundTaskStatus::Completed => "Completed"@,
        BackgroundTaskStatus::Failed => "Failed"@,
        BackgroundTaskStatus::Cancelled => "Cancelled"@,
    }
}

impl BackgroundTaskStatus {
    /// The status as shown to the user.
    pub fn as_str(&self) -> (r: &'static str)
        ensures
            r@ == status_name(*self),
    {
        match self {
            BackgroundTaskStatus::Running => "Running",
            BackgroundTaskStatus::Completed => "Completed",
            BackgroundTaskStatus::Failed => "Failed",
            BackgroundTaskStatus::Cancelled => "Cancelled",
        }
    }
}

/// One background task. The channel that aborts it is kept by its runner.
pub struct BackgroundTask {
    pub label: String,
    pub tool_name: String,
    pub arguments: String,
    pub status: BackgroundTaskStatus,
    pub output_chunks: Vec<String>,
    pub result: Option<String>,
    pub success: Option<bool>,
    pub started_at: u64,
    pub finished_at: Option<u64>,
    pub acknowledged: bool,
}

/// A finished task, queued for the model.
pub struct CompletedTaskResult {
    pub label: String,
    pub tool_name: String,
    pub result: String,
    pub success: bool,
    pub elapsed_ms: u64,
}

pub struct TaskSpec {
    pub label: Seq<char>,
    pub tool_name: Seq<char>,
    pub arguments: Seq<char>,
    pub status: BackgroundTaskStatus,
    pub output: Seq<Seq<char>>,
    pub result: Option<Seq<char>>,
    pub success: Option<bool>,
    pub started_at: u64,
    pub finished_at: Option<u64>,
    pub acknowledged: bool,
}

pub struct DoneSpec {
    pub label: Seq<char>,
    pub tool_name: Seq<char>,
    pub result: Seq<char>,
    pub success: bool,
    pub elapsed_ms: u64,
}

impl BackgroundTask {
    pub open spec fn view(&self) -> TaskSpec {
        TaskSpec {
            label: self.label@,
            tool_name: self.tool_name@,
            arguments: self.arguments@,
            status: self.status,
            output: string_views(self.output_chunks@),
            result: crate::text::opt_view(self.result),
            success: self.success,
            started_at: self.started_at,
            finished_at: self.finished_at,
            acknowledged: self.acknowledged,
        }
    }
}

impl CompletedTaskResult {
    pub open spec fn view(&self) -> DoneSpec {
        DoneSpec {
            label: self.label@,
            tool_name: self.tool_name@,
            result: self.result@,
            success: self.success,
            elapsed_ms: self.elapsed_ms,
        }
    }
}

pub open spec fn task_views(s: Seq<BackgroundTask>) -> Seq<TaskSpec> {
    s.map_values(|t: BackgroundTask| t.view())
}

pub open spec fn done_views(s: Seq<CompletedTaskResult>) -> Seq<DoneSpec> {
    s.map_values(|t: CompletedTaskResult| t.view())
}

/// The position of the task labelled `label`.
pub open spec fn index_of_label(s: Seq<TaskSpec>, label: Seq<char>) -> Option<int>
    decreases s.len(),
{
    if s.len() == 0 {
        None
    } else if s.last().label == label {
        Some(s.len() - 1)
    } else {
        index_of_label(s.drop_last(), label)
    }
}

pub open spec fn labels_unique(s: Seq<TaskSpec>) -> bool {
    forall|i: int, j: int| 0 <= i < s.len() && 0 <= j < s.len() && i != j ==> s[i].label != s[j].label
}

/// The number of running tasks.
pub open spec fn running_count(s: Seq<TaskSpec>) -> nat
    decreases s.len(),
{
    if s.len() == 0 {
        0
    } else {
        running_count(s.drop_last()) + if s.last().status == BackgroundTaskStatus::Running { 1nat } else { 0nat }
    }
}

/// Duration as shown to the user: `42s`, `3m 5s` or `2h 7m`.
pub open spec fn duration_text(secs: nat) -> Seq<char> {
    if secs < 60 {
        dec(secs) + "s"@
    } else if secs < 3600 {
        dec(secs / 60) + "m "@ + dec(secs % 60) + "s"@
    } else {
        dec(secs / 3600) + "h "@ + dec((secs % 3600) / 60) + "m"@
    }
}

pub fn format_duration(secs: u64) -> (r: String)
    ensures
        r@ == duration_text(secs as nat),
{
    let mut s = String::new();
    if secs < 60 {
        push_u64(&mut s, secs);
        append_str(&mut s, "s");
    } else if secs < 3600 {
        push_u64(&mut s, secs / 60);
        append_str(&mut s, "m ");
        push_u64(&mut s, secs % 60);
        append_str(&mut s, "s");
    } else {
        push_u64(&mut s, secs / 3600);
        append_str(&mut s, "h ");
        push_u64(&mut s, (secs % 3600) / 60);
        append_str(&mut s, "m");
    }
    s
}

/// Milliseconds from `from` to `to`, zero if `to` is earlier.
pub open spec fn elapsed(from: u64, to: u64) -> u64 {
    if to >= from { (to - from) as u64 } else { 0 }
}

/// The elapsed time of a task at `now`: up to its end when finished.
pub open spec fn task_elapsed(t: TaskSpec, now: u64) -> u64 {
    match t.finished_at {
        Some(f) => elapsed(t.started_at, f),
        None => elapsed(t.started_at, now),
    }
}

/// One summary line: `[label] tool — Status (elapsed)`.
pub open spec fn summary_line(t: TaskSpec, now: u64) -> Seq<char> {
    "["@ + t.label + "] "@ + t.tool_name + " — "@ + status_name(t.status) + " ("@ + duration_text(
        (task_elapsed(t, now) / 1000) as nat,
    ) + ")\n"@
}

pub open spec fn summary_text(s: Seq<TaskSpec>, now: u64) -> Seq<char>
    decreases s.len(),
{
    if s.len() == 0 {
        seq![]
    } else {
        summary_text(s.drop_last(), now) + summary_line(s.last(), now)
    }
}

/// The summary lines of the running tasks.
pub open spec fn running_text(s: Seq<TaskSpec>, now: u64) -> Seq<char>
    decreases s.len(),
{
    if s.len() == 0 {
        seq![]
    } else {
        running_text(s.drop_last(), now) + if s.last().status == BackgroundTaskStatus::Running {
            "["@ + s.last().label + "] "@ + s.last().tool_name + " — Running ("@ + duration_text(
                (elapsed(s.last().started_at, now) / 1000) as nat,
            ) + ")\n"@
        } else {
            seq![]
        }
    }
}

/// The last `n` output chunks, one per line, indented.
pub open spec fn chunk_lines(cs: Seq<Seq<char>>) -> Seq<char>
    decreases cs.len(),
{
    if cs.len() == 0 {
        seq![]
    } else {
        chunk_lines(cs.drop_last()) + "  "@ + cs.last() + "\n"@
    }
}

/// The report of one task.
pub open spec fn status_text(t: TaskSpec, now: u64) -> Seq<char> {
    let shown = if t.output.len() > 100 { t.output.skip(t.output.len() - 100) } else { t.output };
    "Label: "@ + t.label + "\n"@ + "Tool: "@ + t.tool_name + "\n"@ + "Status: "@ + status_name(t.status) + "\n"@
        + "Elapsed: "@ + duration_text((task_elapsed(t, now) / 1000) as nat) + "\n"@ + if shown.len() > 0 {
        "Output (last "@ + dec(shown.len()) + " chunks):\n"@ + chunk_lines(shown)
    } else {
        seq![]
    }
}

/// Tasks that survive `clear_acknowledged`: running ones and those not
/// yet reported.
pub open spec fn keep_spec(s: Seq<TaskSpec>) -> Seq<TaskSpec>
    decreases s.len(),
{
    if s.len() == 0 {
        seq![]
    } else if s.last().status == BackgroundTaskStatus::Running || !s.last().acknowledged {
        keep_spec(s.drop_last()).push(s.last())
    } else {
        keep_spec(s.drop_last())
    }
}

pub struct BackgroundTaskManager {
    pub tasks: Vec<BackgroundTask>,
    pub completed_queue: Vec<CompletedTaskResult>,
}

pub proof fn lemma_index_of_label(s: Seq<TaskSpec>, label: Seq<char>)
    ensures
        match index_of_label(s, label) {
            Some(i) => 0 <= i < s.len() && s[i].label == label,
            None => forall|j: int| 0 <= j < s.len() ==> s[j].label != label,
        },
    decreases s.len(),
{
    if s.len() > 0 && s.last().label != label {
        lemma_index_of_label(s.drop_last(), label);
        if index_of_label(s.drop_last(), label) is None {
            assert forall|j: int| 0 <= j < s.len() implies s[j].label != label by {
                if j < s.len() - 1 {
                    assert(s[j] == s.drop_last()[j]);
                }
            }
        }
    }
}

proof fn lemma_update_unique(s: Seq<TaskSpec>, i: int, t: TaskSpec)
    requires
        labels_unique(s),
        0 <= i < s.len(),
        t.label == s[i].label,
    ensures
        labels_unique(s.update(i, t)),
{
}

proof fn lemma_running_count_update(s: Seq<TaskSpec>, i: int, t: TaskSpec)
    requires
        0 <= i < s.len(),
    ensures
        running_count(s.update(i, t)) + (if s[i].status == BackgroundTaskStatus::Running { 1int } else { 0int })
            == running_count(s) + (if t.status == BackgroundTaskStatus::Running { 1int } else { 0int }),
    decreases s.len(),
{
    if i < s.len() - 1 {
        lemma_running_count_update(s.drop_last(), i, t);
        assert(s.update(i, t).drop_last() =~= s.drop_last().update(i, t));
    } else {
        assert(s.update(i, t).drop_last() =~= s.drop_last());
    }
}

proof fn lemma_keep_unique(s: Seq<TaskSpec>)
    requires
        labels_unique(s),
    ensures
        labels_unique(keep_spec(s)),
        forall|j: int| 0 <= j < keep_spec(s).len() ==> exists|k: int| 0 <= k < s.len() && s[k] == #[trigger] keep_spec(s)[j],
    decreases s.len(),
{
    if s.len() > 0 {
        let pre = s.drop_last();
        assert(labels_unique(pre)) by {
            assert forall|i: int, j: int| 0 <= i < pre.len() && 0 <= j < pre.len() && i != j implies pre[i].label != pre[j].label by {
                assert(pre[i] == s[i] && pre[j] == s[j]);
            }
        }
        lemma_keep_unique(pre);
        let kp = keep_spec(pre);
        assert forall|j: int| 0 <= j < kp.len() implies exists|k: int| 0 <= k < s.len() && s[k] == #[trigger] kp[j] by {
            let k = choose|k: int| 0 <= k < pre.len() && pre[k] == kp[j];
            assert(s[k] == pre[k]);
        }
        if s.last().status == BackgroundTaskStatus::Running || !s.last().acknowledged {
            let r = kp.push(s.last());
            assert forall|i: int, j: int| 0 <= i < r.len() && 0 <= j < r.len() && i != j implies r[i].label != r[j].label by {
                if i < kp.len() && j < kp.len() {
                    assert(r[i] == kp[i] && r[j] == kp[j]);
                } else if i < kp.len() {
                    let k = choose|k: int| 0 <= k < pre.len() && pre[k] == kp[i];
                    assert(s[k] == pre[k]);
                    assert(k != s.len() - 1);
                } else if j < kp.len() {
                    let k = choose|k: int| 0 <= k < pre.len() && pre[k] == kp[j];
                    assert(s[k] == pre[k]);
                    assert(k != s.len() - 1);
                }
            }
            assert forall|j: int| 0 <= j < r.len() implies exists|k: int| 0 <= k < s.len() && s[k] == #[trigger] r[j] by {
                if j < kp.len() {
                    assert(r[j] == kp[j]);
                    let k = choose|k: int| 0 <= k < s.len() && s[k] == kp[j];
                    assert(s[k] == r[j]);
                } else {
                    assert(s[s.len() - 1] == r[j]);
                }
            }
        }
    }
}

impl BackgroundTaskManager {
    pub open spec fn tasks_view(&self) -> Seq<TaskSpec> {
        task_views(self.tasks@)
    }

    pub open spec fn queue_view(&self) -> Seq<DoneSpec> {
        done_views(self.completed_queue@)
    }

    /// No two tasks share a label.
    pub open spec fn wf(&self) -> bool {
        labels_unique(self.tasks_view())
    }

    pub fn new() -> (r: Self)
        ensures
            r.tasks_view() == Seq::<TaskSpec>::empty(),
            r.queue_view() == Seq::<DoneSpec>::empty(),
            r.wf(),
    {
        let r = BackgroundTaskManager { tasks: Vec::new(), completed_queue: Vec::new() };
        assert(r.tasks_view() =~= Seq::<TaskSpec>::empty());
        assert(r.queue_view() =~= Seq::<DoneSpec>::empty());
        r
    }

    /// The position of the task labelled `label`.
    pub fn find(&self, label: &str) -> (r: Option<usize>)
        ensures
            match r {
                Some(i) => index_of_label(self.tasks_view(), label@) == Some(i as int) && i < self.tasks@.len(),
                None => index_of_label(self.tasks_view(), label@) is None,
            },
    {
        let l = chars_of(label);
        let mut i = self.tasks.len();
        assert(self.tasks_view().take(i as int) =~= self.tasks_view());
        while i > 0
            invariant
                i <= self.tasks.len(),
                l@ == label@,
                index_of_label(self.tasks_view(), label@) == index_of_label(self.tasks_view().take(i as int), label@),
            decreases i,
        {
            assert(self.tasks_view().take(i as int).drop_last() =~= self.tasks_view().take(i - 1));
            assert(self.tasks_view().take(i as int).last() == self.tasks@[i - 1].view());
            let tl = chars_of(self.tasks[i - 1].label.as_str());
            if chars_eq(&tl, &l) {
                return Some(i - 1);
            }
            i = i - 1;
        }
        assert(self.tasks_view().take(0) =~= Seq::<TaskSpec>::empty());
        None
    }

    /// The task labelled `label`, if any.
    pub fn get(&self, label: &str) -> (r: Option<&BackgroundTask>)
        ensures
            match r {
                Some(t) => index_of_label(self.tasks_view(), label@) matches Some(i) && t.view() == self.tasks_view()[i],
                None => index_of_label(self.tasks_view(), label@) is None,
            },
    {
        match self.find(label) {
            Some(i) => Some(&self.tasks[i]),
            None => None,
        }
    }

    /// The number of running tasks.
    pub fn active_count(&self) -> (r: usize)
        ensures
            r == running_count(self.tasks_view()),
    {
        let mut n: usize = 0;
        let mut i: usize = 0;
        assert(self.tasks_view().take(0) =~= Seq::<TaskSpec>::empty());
        while i < self.tasks.len()
            invariant
                i <= self.tasks.len(),
                n == running_count(self.tasks_view().take(i as int)),
                n <= i,
            decreases self.tasks.len() - i,
        {
            assert(self.tasks_view().take(i + 1).drop_last() =~= self.tasks_view().take(i as int));
            assert(self.tasks_view().take(i + 1).last() == self.tasks@[i as int].view());
            if self.tasks[i].status == BackgroundTaskStatus::Running {
                n = n + 1;
            }
            i = i + 1;
        }
        assert(self.tasks_view().take(self.tasks.len() as int) =~= self.tasks_view());
        n
    }

    /// Whether some task is running.
    pub fn has_running_tasks(&self) -> (r: bool)
        ensures
            r == (running_count(self.tasks_view()) > 0),
    {
        self.active_count() > 0
    }

    /// Insert a task, rejecting if a task with the same label is already
    /// Running. Completed/failed/cancelled tasks with the same label get
    /// overwritten.
    pub fn insert(&mut self, task: BackgroundTask) -> (r: Result<(), String>)
        requires
            old(self).wf(),
        ensures
            final(self).wf(),
            final(self).queue_view() == old(self).queue_view(),
            match index_of_label(old(self).tasks_view(), task.label@) {
                Some(i) => if old(self).tasks_view()[i].status == BackgroundTaskStatus::Running {
                    r matches Err(e) && e@ == "task with label '"@ + task.label@ + "' is already running"@
                        && final(self).tasks_view() == old(self).tasks_view()
                } else {
                    r is Ok && final(self).tasks_view() == old(self).tasks_view().update(i, task.view())
                },
                None => r is Ok && final(self).tasks_view() == old(self).tasks_view().push(task.view()),
            },
    {
        proof {
            lemma_index_of_label(self.tasks_view(), task.label@);
        }
        match self.find(task.label.as_str()) {
            Some(i) => {
                if self.tasks[i].status == BackgroundTaskStatus::Running {
                    let mut e = String::new();
                    append_str(&mut e, "task with label '");
                    append_str(&mut e, task.label.as_str());
                    append_str(&mut e, "' is already running");
                    return Err(e);
                }
                let ghost tv = task.view();
                self.tasks.set(i, task);
                assert(self.tasks_view() =~= old(self).tasks_view().update(i as int, tv));
                proof {
                    lemma_update_unique(old(self).tasks_view(), i as int, tv);
                }
                Ok(())
            },
            None => {
                let ghost tv = task.view();
                self.tasks.push(task);
                assert(self.tasks_view() =~= old(self).tasks_view().push(tv));
                Ok(())
            },
        }
    }

    /// Appends a chunk of output to the task labelled `label`, if any.
    pub fn append_output(&mut self, label: &str, chunk: String)
        requires
            old(self).wf(),
        ensures
            final(self).wf(),
            final(self).queue_view() == old(self).queue_view(),
            match index_of_label(old(self).tasks_view(), label@) {
                Some(i) => final(self).tasks_view() == old(self).tasks_view().update(
                    i,
                    TaskSpec { output: old(self).tasks_view()[i].output.push(chunk@), ..old(self).tasks_view()[i] },
                ),
                None => final(self).tasks_view() == old(self).tasks_view(),
            },
    {
        match self.find(label) {
            Some(i) => {
                let mut t = self.tasks.remove(i);
                let ghost before = t.view();
                t.output_chunks.push(chunk);
                assert(string_views(t.output_chunks@) =~= before.output.push(chunk@));
                let ghost tv = t.view();
                self.tasks.insert(i, t);
                assert(self.tasks_view() =~= old(self).tasks_view().update(i as int, tv));
                proof {
                    lemma_update_unique(old(self).tasks_view(), i as int, tv);
                }
            },
            None => {},
        }
    }

    /// Mark a task as completed or failed, set its result and its end time,
    /// and queue a `CompletedTaskResult`.
    pub fn complete(&mut self, label: &str, result: String, success: bool, now: u64)
        requires
            old(self).wf(),
        ensures
            final(self).wf(),
            match index_of_label(old(self).tasks_view(), label@) {
                Some(i) => {
                    let t = old(self).tasks_view()[i];
                    &&& final(self).tasks_view() == old(self).tasks_view().update(
                        i,
                        TaskSpec {
                            status: if success { BackgroundTaskStatus::Completed } else { BackgroundTaskStatus::Failed },
                            result: Some(result@),
                            success: Some(success),
                            finished_at: Some(now),
                            ..t
                        },
                    )
                    &&& final(self).queue_view() == old(self).queue_view().push(
                        DoneSpec {
                            label: t.label,
                            tool_name: t.tool_name,
                            result: result@,
                            success,
                            elapsed_ms: elapsed(t.started_at, now),
                        },
                    )
                },
                None => final(self).tasks_view() == old(self).tasks_view() && final(self).queue_view()
                    == old(self).queue_view(),
            },
    {
        match self.find(label) {
            Some(i) => {
                let mut t = self.tasks.remove(i);
                let ghost before = t.view();
                t.status = if success { BackgroundTaskStatus::Completed } else { BackgroundTaskStatus::Failed };
                t.result = Some(result.clone());
                t.success = Some(success);
                t.finished_at = Some(now);
                let el = if now >= t.started_at { now - t.started_at } else { 0 };
                let done = CompletedTaskResult {
                    label: t.label.clone(),
                    tool_name: t.tool_name.clone(),
                    result,
                    success,
                    elapsed_ms: el,
                };
                let ghost tv = t.view();
                assert(tv == TaskSpec {
                    status: if success { BackgroundTaskStatus::Completed } else { BackgroundTaskStatus::Failed },
                    result: Some(done.result@),
                    success: Some(success),
                    finished_at: Some(now),
                    ..before
                });
                self.tasks.insert(i, t);
                assert(self.tasks_view() =~= old(self).tasks_view().update(i as int, tv));
                proof {
                    lemma_update_unique(old(self).tasks_view(), i as int, tv);
                }
                let ghost dv = done.view();
                self.completed_queue.push(done);
                assert(self.queue_view() =~= old(self).queue_view().push(dv));
            },
            None => {},
        }
    }

    /// Mark a running task as cancelled (its runner is signalled by the
    /// caller). Returns an error if the task does not exist or is not
    /// currently running.
    pub fn cancel(&mut self, label: &str, now: u64) -> (r: Result<(), String>)
        requires
            old(self).wf(),
        ensures
            final(self).wf(),
            final(self).queue_view() == old(self).queue_view(),
            match index_of_label(old(self).tasks_view(), label@) {
                None => r matches Err(e) && e@ == "task '"@ + label@ + "' not found"@ && final(self).tasks_view()
                    == old(self).tasks_view(),
                Some(i) => if old(self).tasks_view()[i].status != BackgroundTaskStatus::Running {
                    r matches Err(e) && e@ == "task '"@ + label@ + "' is not running"@ && final(self).tasks_view()
                        == old(self).tasks_view()
                } else {
                    r is Ok && final(self).tasks_view() == old(self).tasks_view().update(
                        i,
                        TaskSpec {
                            status: BackgroundTaskStatus::Cancelled,
                            finished_at: Some(now),
                            ..old(self).tasks_view()[i]
                        },
                    )
                },
            },
    {
        match self.find(label) {
            None => {
                let mut e = String::new();
                append_str(&mut e, "task '");
                append_str(&mut e, label);
                append_str(&mut e, "' not found");
                Err(e)
            },
            Some(i) => {
                if self.tasks[i].status != BackgroundTaskStatus::Running {
                    let mut e = String::new();
                    append_str(&mut e, "task '");
                    append_str(&mut e, label);
                    append_str(&mut e, "' is not running");
                    return Err(e);
                }
                let mut t = self.tasks.remove(i);
                t.status = BackgroundTaskStatus::Cancelled;
                t.finished_at = Some(now);
                let ghost tv = t.view();
                self.tasks.insert(i, t);
                assert(self.tasks_view() =~= old(self).tasks_view().update(i as int, tv));
                proof {
                    lemma_update_unique(old(self).tasks_view(), i as int, tv);
                }
                Ok(())
            },
        }
    }

    /// Return a formatted status string for a single task. If the task is
    /// no longer running, mark it as acknowledged.
    pub fn status_one(&mut self, label: &str, now: u64) -> (r: Result<String, String>)
        requires
            old(self).wf(),
        ensures
            final(self).wf(),
            final(self).queue_view() == old(self).queue_view(),
            match index_of_label(old(self).tasks_view(), label@) {
                None => r matches Err(e) && e@ == "task '"@ + label@ + "' not found"@ && final(self).tasks_view()
                    == old(self).tasks_view(),
                Some(i) => {
                    let t = old(self).tasks_view()[i];
                    &&& r matches Ok(s) && s@ == status_text(t, now)
                    &&& final(self).tasks_view() == old(self).tasks_view().update(
                        i,
                        TaskSpec { acknowledged: t.acknowledged || t.status != BackgroundTaskStatus::Running, ..t },
                    )
                },
            },
    {
        match self.find(label) {
            None => {
                let mut e = String::new();
                append_str(&mut e, "task '");
                append_str(&mut e, label);
                append_str(&mut e, "' not found");
                Err(e)
            },
            Some(i) => {
                let out = Self::status_text_of(&self.tasks[i], now);
                let mut t = self.tasks.remove(i);
                if t.status != BackgroundTaskStatus::Running {
                    t.acknowledged = true;
                }
                let ghost tv = t.view();
                self.tasks.insert(i, t);
                assert(self.tasks_view() =~= old(self).tasks_view().update(i as int, tv));
                proof {
                    lemma_update_unique(old(self).tasks_view(), i as int, tv);
                }
                Ok(out)
            },
        }
    }

    #[verifier::rlimit(40)]
    fn status_text_of(t: &BackgroundTask, now: u64) -> (r: String)
        ensures
            r@ == status_text(t.view(), now),
    {
        let tv = Ghost(t.view());
        let el = match t.finished_at {
            Some(f) => if f >= t.started_at { f - t.started_at } else { 0 },
            None => if now >= t.started_at { now - t.started_at } else { 0 },
        };
        let mut out = String::new();
        append_str(&mut out, "Label: ");
        append_str(&mut out, t.label.as_str());
        append_str(&mut out, "\n");
        append_str(&mut out, "Tool: ");
        append_str(&mut out, t.tool_name.as_str());
        append_str(&mut out, "\n");
        append_str(&mut out, "Status: ");
        append_str(&mut out, t.status.as_str());
        append_str(&mut out, "\n");
        append_str(&mut out, "Elapsed: ");
        let d = format_duration(el / 1000);
        append_str(&mut out, d.as_str());
        append_str(&mut out, "\n");
        let n = t.output_chunks.len();
        let start = if n > 100 { n - 100 } else { 0 };
        let ghost outv = string_views(t.output_chunks@);
        let ghost shown = if outv.len() > 100 { outv.skip(outv.len() - 100) } else { outv };
        assert(shown =~= outv.skip(start as int));
        if n - start > 0 {
            append_str(&mut out, "Output (last ");
            push_u64(&mut out, (n - start) as u64);
            append_str(&mut out, " chunks):\n");
            let ghost head = out@;
            let mut k = start;
            assert(outv.subrange(start as int, start as int) =~= Seq::<Seq<char>>::empty());
            while k < n
                invariant
                    start <= k <= n,
                    n == t.output_chunks.len(),
                    outv == string_views(t.output_chunks@),
                    out@ == head + chunk_lines(outv.subrange(start as int, k as int)),
                decreases n - k,
            {
                append_str(&mut out, "  ");
                append_str(&mut out, t.output_chunks[k].as_str());
                append_str(&mut out, "\n");
                assert(outv.subrange(start as int, k + 1).drop_last() =~= outv.subrange(start as int, k as int));
                assert(outv.subrange(start as int, k + 1).last() == t.output_chunks@[k as int]@);
                k = k + 1;
            }
            assert(outv.subrange(start as int, n as int) =~= shown);
        }
        out
    }

    /// One-line-per-task summary of ALL tasks.
    pub fn summary(&self, now: u64) -> (r: String)
        ensures
            r@ == summary_text(self.tasks_view(), now),
    {
        let mut out = String::new();
        let mut i: usize = 0;
        assert(self.tasks_view().take(0) =~= Seq::<TaskSpec>::empty());
        while i < self.tasks.len()
            invariant
                i <= self.tasks.len(),
                out@ == summary_text(self.tasks_view().take(i as int), now),
            decreases self.tasks.len() - i,
        {
            let t = &self.tasks[i];
            let el = match t.finished_at {
                Some(f) => if f >= t.started_at { f - t.started_at } else { 0 },
                None => if now >= t.started_at { now - t.started_at } else { 0 },
            };
            append_str(&mut out, "[");
            append_str(&mut out, t.label.as_str());
            append_str(&mut out, "] ");
            append_str(&mut out, t.tool_name.as_str());
            append_str(&mut out, " — ");
            append_str(&mut out, t.status.as_str());
            append_str(&mut out, " (");
            let d = format_duration(el / 1000);
            append_str(&mut out, d.as_str());
            append_str(&mut out, ")\n");
            assert(self.tasks_view().take(i + 1).drop_last() =~= self.tasks_view().take(i as int));
            assert(self.tasks_view().take(i + 1).last() == t.view());
            i = i + 1;
        }
        assert(self.tasks_view().take(self.tasks.len() as int) =~= self.tasks_view());
        out
    }

    /// Like `summary` but only for running tasks.
    pub fn running_summary(&self, now: u64) -> (r: String)
        ensures
            r@ == running_text(self.tasks_view(), now),
    {
        let mut out = String::new();
        let mut i: usize = 0;
        assert(self.tasks_view().take(0) =~= Seq::<TaskSpec>::empty());
        while i < self.tasks.len()
            invariant
                i <= self.tasks.len(),
                out@ == running_text(self.tasks_view().take(i as int), now),
            decreases self.tasks.len() - i,
        {
            let t = &self.tasks[i];
            assert(self.tasks_view().take(i + 1).drop_last() =~= self.tasks_view().take(i as int));
            assert(self.tasks_view().take(i + 1).last() == t.view());
            if t.status == BackgroundTaskStatus::Running {
                let el = if now >= t.started_at { now - t.started_at } else { 0 };
                append_str(&mut out, "[");
                append_str(&mut out, t.label.as_str());
                append_str(&mut out, "] ");
                append_str(&mut out, t.tool_name.as_str());
                append_str(&mut out, " — Running (");
                let d = format_duration(el / 1000);
                append_str(&mut out, d.as_str());
                append_str(&mut out, ")\n");
            } else {
                assert(out@ =~= out@ + Seq::<char>::empty());
            }
            i = i + 1;
        }
        assert(self.tasks_view().take(self.tasks.len() as int) =~= self.tasks_view());
        out
    }

    /// Drain the completed-task queue into a `Vec`.
    pub fn drain_completed(&mut self) -> (r: Vec<CompletedTaskResult>)
        requires
            old(self).wf(),
        ensures
            final(self).wf(),
            done_views(r@) == old(self).queue_view(),
            final(self).queue_view() == Seq::<DoneSpec>::empty(),
            final(self).tasks_view() == old(self).tasks_view(),
    {
        let mut out: Vec<CompletedTaskResult> = Vec::new();
        std::mem::swap(&mut out, &mut self.completed_queue);
        assert(self.queue_view() =~= Seq::<DoneSpec>::empty());
        out
    }

    /// Remove tasks that are not running AND have been acknowledged.
    pub fn clear_acknowledged(&mut self)
        requires
            old(self).wf(),
        ensures
            final(self).wf(),
            final(self).tasks_view() == keep_spec(old(self).tasks_view()),
            final(self).queue_view() == old(self).queue_view(),
    {
        let mut old_tasks: Vec<BackgroundTask> = Vec::new();
        std::mem::swap(&mut old_tasks, &mut self.tasks);
        let ghost all = task_views(old_tasks@);
        // move the tasks back in order, keeping the survivors
        let mut rev: Vec<BackgroundTask> = Vec::new();
        while old_tasks.len() > 0
            invariant
                task_views(old_tasks@) + task_views(rev@).reverse() == all,
            decreases old_tasks.len(),
        {
            let ghost ob = task_views(old_tasks@);
            let ghost rb = task_views(rev@);
            let t = old_tasks.pop().unwrap();
            rev.push(t);
            assert(ob =~= task_views(old_tasks@).push(t.view()));
            assert(task_views(rev@) =~= rb.push(t.view()));
            assert(task_views(rev@).reverse() =~= seq![t.view()] + rb.reverse());
            assert(task_views(old_tasks@) + task_views(rev@).reverse() =~= ob + rb.reverse());
        }
        assert(task_views(old_tasks@) =~= Seq::<TaskSpec>::empty());
        assert(task_views(rev@).reverse() =~= all);
        let ghost mut i: int = 0;
        assert(all.take(0) =~= Seq::<TaskSpec>::empty());
        assert(all.skip(0) =~= all);
        assert(self.tasks_view() =~= keep_spec(all.take(0)));
        while rev.len() > 0
            invariant
                0 <= i,
                i + rev@.len() == all.len(),
                task_views(rev@).reverse() == all.skip(i),
                self.tasks_view() == keep_spec(all.take(i)),
                self.queue_view() == old(self).queue_view(),
            decreases rev.len(),
        {
            let ghost rb = task_views(rev@);
            let t = rev.pop().unwrap();
            proof {
                assert(rb =~= task_views(rev@).push(t.view()));
                assert(rb.reverse()[0] == t.view());
                assert(all.skip(i)[0] == all[i]);
                assert(all.take(i + 1).drop_last() =~= all.take(i));
                assert(all.take(i + 1).last() == all[i]);
                assert(task_views(rev@).reverse() =~= rb.reverse().drop_first());
                assert(all.skip(i).drop_first() =~= all.skip(i + 1));
            }
            let ghost before = self.tasks_view();
            if t.status == BackgroundTaskStatus::Running || !t.acknowledged {
                self.tasks.push(t);
                assert(self.tasks_view() =~= before.push(all[i]));
            }
            proof {
                i = i + 1;
            }
        }
        assert(all.take(i) =~= all);
        assert(all == old(self).tasks_view());
        proof {
            lemma_keep_unique(all);
        }
    }

    /// Clear everything (the caller aborts the running tasks first).
    pub fn clear_all(&mut self)
        ensures
            final(self).wf(),
            final(self).tasks_view() == Seq::<TaskSpec>::empty(),
            final(self).queue_view() == Seq::<DoneSpec>::empty(),
    {
        self.tasks.clear();
        self.completed_queue.clear();
        assert(self.tasks_view() =~= Seq::<TaskSpec>::empty());
        assert(self.queue_view() =~= Seq::<DoneSpec>::empty());
    }
}

/// Truncate a string for display in progress messages.
pub fn truncate_args(s: &str, max_len: usize) -> (r: String)
    requires
        crate::display::byte_len(s@) > max_len ==> crate::display::is_boundary(s@, max_len as nat),
    ensures
        r@ == crate::display::truncated(s@, max_len as nat),
{
    crate::display::truncate_display(s, max_len)
}

} // verus!
