//! The download service: it creates tasks, decides what a start, a line of
//! output, the end of the downloader or a request of the user does to a
//! task, and keeps the repository up to date.
//!
//! The service never holds a task across two events. Each operation reads
//! the task by its id, applies one transition and writes the task back.
//! Whoever drives the service starts the downloader, reads its output and
//! hands each event over.

use vstd::prelude::*;
use vstd::string::*;
use crate::batch::{
    batch_id_text,
    batch_ids,
    batch_prefix,
    child_lead,
    distinct,
    distinct_formats,
    free_batch_time,
    has_batch,
    lemma_batch_ids,
    lemma_child_ids_differ,
    lemma_child_in_group,
    batch_progress,
    batch_status,
    child_id_text,
    found_batch,
    BatchDownloadTask,
    BatchDownloadTaskRepository,
    BatchView,
    InMemoryBatchDownloadTaskRepository,
};
use crate::config::{AppConfig, ConfigView};
use crate::error::DownloadError;
use crate::platform::{optional_str, texts};
use crate::progress::{chars_of, line_report, parse_line};
use crate::ids::{
    first_free,
    group_prefix,
    group_used,
    has_prefix,
    is_free,
    is_open,
    lemma_closed_numbers_are_few,
    lemma_first_open_exists,
    lemma_first_open_is_unique,
    starts_with,
    lemma_first_free_exists,
    lemma_first_free_is_unique,
    lemma_taken_numbers_are_few,
};
use crate::repository::{
    all_valid,
    count_with_status,
    deleted,
    deleted_all,
    distinct_ids,
    found,
    has_id,
    lemma_has_id,
    lemma_task_ids,
    position,
    saved,
    task_ids,
    unfinished,
    views,
    InMemoryDownloadTaskRepository,
};
use crate::status::DownloadStatus;
use crate::task::{idle_speed, DownloadTask, TaskView, Transition, FULL_PROGRESS};
use crate::text::{append_decimal, append_integer, decimal_text, integer_text};
use crate::yt_dlp::{download_arguments, Invocation, InvocationView, YtDlpContentDownloader};

verus! {

/// The id of the task with the given number, a time in milliseconds since
/// the Unix epoch.
pub open spec fn task_id_text(now_millis: nat) -> Seq<char> {
    "task_"@ + decimal_text(now_millis)
}

/// What the id of every task that is created on its own begins with.
pub open spec fn task_prefix() -> Seq<char> {
    "task_"@
}

/// The id of the task that is created at the given time while `tasks` are
/// stored: the id of the first millisecond from that time onwards under
/// which none of them is stored.
pub open spec fn free_task_id_text(tasks: Seq<TaskView>, now_millis: nat) -> Seq<char> {
    task_id_text(first_free(task_ids(tasks), task_prefix(), now_millis))
}

/// The error message of a task whose downloader ended with the given exit
/// code.
pub open spec fn failure_text(exit_code: int) -> Seq<char> {
    "Download failed with exit code "@ + integer_text(exit_code)
}

/// What an operation on the task with the given id reports, and the tasks
/// after it: without such a task `TaskNotFound`, with a task that refuses
/// the transition its reason, and in both cases no change; else success,
/// with the task replaced by the one that the transition leads to.
pub open spec fn outcome(tasks: Seq<TaskView>, id: Seq<char>, transition: Transition, now: int) -> (
    Result<(), DownloadError>,
    Seq<TaskView>,
) {
    if !has_id(tasks, id) {
        (Err(DownloadError::TaskNotFound), tasks)
    } else {
        match tasks[position(tasks, id)].apply(transition, now) {
            Ok(next) => (Ok(()), tasks.update(position(tasks, id), next)),
            Err(e) => (Err(DownloadError::of_task_error(e)), tasks),
        }
    }
}

/// The call of the downloader that fetches a task: in the format that is
/// asked for, or else in the task's own, or in none.
pub open spec fn download_call(
    config: ConfigView,
    task: TaskView,
    format: Option<Seq<char>>,
) -> InvocationView {
    InvocationView {
        program: config.yt_dlp_path,
        arguments: download_arguments(
            config.download_path,
            match format {
                Some(f) => Some(f),
                None => task.format_id,
            },
            task.url,
        ),
    }
}

/// The transition that a line of the downloader's output stands for, if it
/// stands for one: a progress report with the line's percentage and with
/// its speed, or the idle speed if the line names none.
pub open spec fn line_transition(line: Seq<char>) -> Option<Transition> {
    match line_report(line).0 {
        Some(progress) => Some(
            Transition::Progress {
                progress,
                speed: match line_report(line).1 {
                    Some(speed) => speed,
                    None => idle_speed(),
                },
            },
        ),
        None => None,
    }
}

/// The transition that the end of the downloader stands for.
pub open spec fn exit_transition(success: bool, exit_code: int) -> Transition {
    if success {
        Transition::Complete
    } else {
        Transition::Fail { error: failure_text(exit_code) }
    }
}

/// What the runner of a process reports at its end: success exactly if the
/// process ended with success, else the exit code.
pub open spec fn exit_outcome(success: bool, exit_code: i32) -> Result<(), DownloadError> {
    if success {
        Ok(())
    } else {
        Err(DownloadError::ExitFailure(exit_code))
    }
}

/// The mathematical value of a started download.
pub struct StartedView {
    pub task_id: Seq<char>,
    pub call: InvocationView,
}

/// A download that was started: the id of its task, and the call of the
/// downloader that fetches it.
#[derive(Debug)]
pub struct StartedDownload {
    pub task_id: String,
    pub call: Invocation,
}

impl View for StartedDownload {
    type V = StartedView;

    open spec fn view(&self) -> StartedView {
        StartedView { task_id: self.task_id@, call: self.call@ }
    }
}

/// The values of a sequence of started downloads.
pub open spec fn started_views(started: Seq<StartedDownload>) -> Seq<StartedView> {
    started.map_values(|s: StartedDownload| s@)
}

/// The task that fetches one format of a batch, as it stands once its
/// downloader was launched.
pub open spec fn child_task(batch_id: Seq<char>, url: Seq<char>, format: Seq<char>, now: int) -> TaskView {
    TaskView::created(child_id_text(batch_id, format), url, Some(format), now).started(now)
}

/// The tasks of a batch, one for each of the formats and in their order.
pub open spec fn batch_children(
    batch_id: Seq<char>,
    url: Seq<char>,
    formats: Seq<Seq<char>>,
    now: int,
) -> Seq<TaskView> {
    formats.map_values(|f: Seq<char>| child_task(batch_id, url, f, now))
}

/// The downloads of a batch, one for each of the formats and in their
/// order.
pub open spec fn batch_downloads(
    config: ConfigView,
    batch_id: Seq<char>,
    url: Seq<char>,
    formats: Seq<Seq<char>>,
) -> Seq<StartedView> {
    formats.map_values(
        |f: Seq<char>|
            StartedView {
                task_id: child_id_text(batch_id, f),
                call: InvocationView {
                    program: config.yt_dlp_path,
                    arguments: download_arguments(config.download_path, Some(f), url),
                },
            },
    )
}

/// The id of the batch that is created at the given time while `batches`
/// and `tasks` are stored.
pub open spec fn free_batch_id_text(
    batches: Seq<BatchView>,
    tasks: Seq<TaskView>,
    now_millis: nat,
) -> Seq<char> {
    batch_id_text(free_batch_time(batches, tasks, now_millis))
}

/// Whether the batch with the number `n` can be created while `batches`
/// and `tasks` are stored: no batch has its id, and no task belongs to it.
pub open spec fn batch_is_open(batches: Seq<BatchView>, tasks: Seq<TaskView>, n: nat) -> bool {
    is_open(batch_ids(batches), batch_prefix(), task_ids(tasks), child_lead(), n)
}

/// The task for a format of a new batch is not stored yet: neither before
/// the batch was created, nor among the tasks for the formats before it.
pub proof fn lemma_child_is_new(
    tasks: Seq<TaskView>,
    n: nat,
    url: Seq<char>,
    formats: Seq<Seq<char>>,
    now: int,
    i: int,
)
    requires
        !group_used(task_ids(tasks), child_lead(), n),
        formats.no_duplicates(),
        0 <= i < formats.len(),
    ensures
        !has_id(
            tasks + batch_children(batch_id_text(n), url, formats.subrange(0, i), now),
            child_id_text(batch_id_text(n), formats[i]),
        ),
{
    let id = child_id_text(batch_id_text(n), formats[i]);
    let all = tasks + batch_children(batch_id_text(n), url, formats.subrange(0, i), now);
    lemma_has_id(all, id);
    if has_id(all, id) {
        let k = choose|k: int| 0 <= k < all.len() && (#[trigger] all[k]).id == id;
        if k < tasks.len() {
            assert(all[k] == tasks[k]);
            lemma_child_in_group(n, formats[i]);
            assert(has_prefix(task_ids(tasks)[k], group_prefix(child_lead(), n)));
        } else {
            let j = k - tasks.len();
            assert(all[k] == child_task(batch_id_text(n), url, formats[j], now));
            lemma_child_ids_differ(batch_id_text(n), formats[j], formats[i]);
        }
    }
}

/// The tasks of a batch that are stored, in the order of the formats.
pub open spec fn children_of(tasks: Seq<TaskView>, batch_id: Seq<char>, formats: Seq<Seq<char>>) -> Seq<
    TaskView,
>
    decreases formats.len(),
{
    if formats.len() == 0 {
        Seq::<TaskView>::empty()
    } else {
        let front = children_of(tasks, batch_id, formats.drop_last());
        match found(tasks, child_id_text(batch_id, formats.last())) {
            Some(task) => front.push(task),
            None => front,
        }
    }
}

/// The status and the progress of the batch with the given id, worked out
/// from those of its tasks that are stored; nothing if no such batch was
/// created.
pub open spec fn batch_summary(batches: Seq<BatchView>, tasks: Seq<TaskView>, id: Seq<char>) -> Option<
    (DownloadStatus, nat),
> {
    match found_batch(batches, id) {
        Some(batch) => {
            let children = children_of(tasks, id, batch.format_ids);
            Some((batch_status(children), batch_progress(children)))
        },
        None => None,
    }
}

/// An operation keeps the ids of the tasks distinct and the tasks valid,
/// neither adds nor removes a task, and leaves every other task as it is.
pub proof fn lemma_outcome(
    tasks: Seq<TaskView>,
    id: Seq<char>,
    transition: Transition,
    now: int,
    other: Seq<char>,
)
    requires
        distinct_ids(tasks),
        all_valid(tasks),
    ensures
        distinct_ids(outcome(tasks, id, transition, now).1),
        all_valid(outcome(tasks, id, transition, now).1),
        outcome(tasks, id, transition, now).1.len() == tasks.len(),
        has_id(outcome(tasks, id, transition, now).1, other) == has_id(tasks, other),
        other != id ==> found(outcome(tasks, id, transition, now).1, other) == found(tasks, other),
        outcome(tasks, id, transition, now).0 is Err ==> outcome(tasks, id, transition, now).1
            == tasks,
{
    lemma_has_id(tasks, id);
    if has_id(tasks, id) {
        let p = position(tasks, id);
        let task = tasks[p];
        match task.apply(transition, now) {
            Ok(next) => {
                crate::task::lemma_transition_keeps_valid(task, transition, now);
                assert(next.id == id);
                assert(saved(tasks, next) == tasks.update(p, next));
                crate::repository::lemma_saved(tasks, next, other);
                let after = tasks.update(p, next);
                if other == id {
                    assert(has_id(after, other));
                } else {
                    assert(found(after, other) == found(tasks, other));
                }
            },
            Err(_) => {},
        }
    }
}

/// An operation on a completed, failed or cancelled task reports
/// `InvalidState` and changes nothing; so a cancellation that comes after
/// the downloader's end cannot undo it.
pub proof fn lemma_terminal_task_is_kept(
    tasks: Seq<TaskView>,
    id: Seq<char>,
    transition: Transition,
    now: int,
)
    requires
        has_id(tasks, id),
        tasks[position(tasks, id)].status.is_terminal(),
    ensures
        outcome(tasks, id, transition, now) == (
            Err::<(), DownloadError>(DownloadError::InvalidState),
            tasks,
        ),
{
}

/// An operation on an id that is not stored reports `TaskNotFound` and
/// changes nothing.
pub proof fn lemma_unknown_task_is_refused(
    tasks: Seq<TaskView>,
    id: Seq<char>,
    transition: Transition,
    now: int,
)
    requires
        !has_id(tasks, id),
    ensures
        outcome(tasks, id, transition, now) == (
            Err::<(), DownloadError>(DownloadError::TaskNotFound),
            tasks,
        ),
{
}

/// How many tasks there are, and how many in each status.
#[derive(Clone, Copy, Debug, PartialEq, Eq, Structural)]
pub struct DownloadStats {
    pub total: usize,
    pub pending: usize,
    pub downloading: usize,
    pub completed: usize,
    pub failed: usize,
    pub cancelled: usize,
    pub paused: usize,
}

/// The download service.
pub struct DownloadService {
    repository: InMemoryDownloadTaskRepository,
    batches: InMemoryBatchDownloadTaskRepository,
    config: AppConfig,
}

impl View for DownloadService {
    type V = Seq<TaskView>;

    /// The tasks that the service knows, in the order of their creation.
    closed spec fn view(&self) -> Seq<TaskView> {
        self.repository@
    }
}

impl DownloadService {
    /// The settings that the service works with.
    pub closed spec fn settings(&self) -> ConfigView {
        self.config@
    }

    /// The batches that are stored, in the order of their creation.
    pub closed spec fn batches(&self) -> Seq<BatchView> {
        self.batches@
    }

    /// A service without tasks that works with the default settings.
    pub fn new() -> (r: Self)
        ensures
            r@ == Seq::<TaskView>::empty(),
            r.batches() == Seq::<BatchView>::empty(),
            r.settings() == crate::config::default_config(),
    {
        Self::with_config(AppConfig::default())
    }

    /// A service without tasks that works with the given settings.
    pub fn with_config(config: AppConfig) -> (r: Self)
        ensures
            r@ == Seq::<TaskView>::empty(),
            r.batches() == Seq::<BatchView>::empty(),
            r.settings() == config@,
    {
        DownloadService {
            repository: InMemoryDownloadTaskRepository::new(),
            batches: InMemoryBatchDownloadTaskRepository::new(),
            config,
        }
    }

    /// The settings that the service works with.
    pub fn get_config(&self) -> (r: AppConfig)
        ensures
            r@ == self.settings(),
    {
        self.config.clone()
    }

    /// Replaces the settings; the tasks stay as they are.
    pub fn save_config(&mut self, config: &AppConfig)
        ensures
            final(self).settings() == config@,
            final(self)@ == old(self)@,
            final(self).batches() == old(self).batches(),
    {
        self.config = config.clone();
    }

    /// The id that is made of the given time. A task created at that time
    /// gets it if no stored task has it.
    pub fn task_id(now_millis: u64) -> (r: String)
        ensures
            r@ == task_id_text(now_millis as nat),
    {
        let mut id = "task_".to_string();
        append_decimal(&mut id, now_millis as u128);
        id
    }

    fn numbered_task_id(n: u128) -> (r: String)
        ensures
            r@ == task_id_text(n as nat),
    {
        let mut id = "task_".to_string();
        append_decimal(&mut id, n);
        id
    }

    /// The id for a task created at the given time: the id of the first
    /// millisecond from that time onwards under which no task is stored.
    pub fn free_task_id(&self, now_millis: u64) -> (r: String)
        ensures
            r@ == free_task_id_text(self@, now_millis as nat),
            !has_id(self@, r@),
            !has_id(self@, task_id_text(now_millis as nat)) ==> r@ == task_id_text(
                now_millis as nat,
            ),
    {
        let ghost ids = task_ids(self@);
        let ghost from = now_millis as nat;
        let count = self.repository.len();
        let mut n: u128 = now_millis as u128;
        let mut id = Self::numbered_task_id(n);
        proof {
            lemma_taken_numbers_are_few(ids, task_prefix(), from, from);
        }
        while self.repository.contains(id.as_str())
            invariant
                ids == task_ids(self@),
                from == now_millis,
                count == self@.len(),
                from <= n,
                n - from <= count,
                id@ == task_id_text(n as nat),
                forall|m: nat| from <= m < n ==> !#[trigger] is_free(ids, task_prefix(), m),
            decreases count - (n - from),
        {
            proof {
                lemma_task_ids(self@, id@);
                assert(!is_free(ids, task_prefix(), n as nat));
                lemma_taken_numbers_are_few(ids, task_prefix(), from, (n + 1) as nat);
            }
            n = n + 1;
            id = Self::numbered_task_id(n);
        }
        proof {
            lemma_task_ids(self@, id@);
            assert(is_free(ids, task_prefix(), n as nat));
            lemma_first_free_is_unique(ids, task_prefix(), from, n as nat);
            lemma_task_ids(self@, task_id_text(from));
            lemma_first_free_exists(ids, task_prefix(), from);
        }
        id
    }

    /// Creates a pending task for `url` at the given time, in milliseconds
    /// since the Unix epoch, stores it after the tasks stored before and
    /// returns its id. The id is one that no stored task has: that of the
    /// given millisecond, or of the first one after it that is free. No
    /// task stored before is changed.
    pub fn create_download_task(&mut self, url: &str, format_id: Option<&str>, now_millis: u64) -> (r:
        String)
        ensures
            r@ == free_task_id_text(old(self)@, now_millis as nat),
            !has_id(old(self)@, r@),
            !has_id(old(self)@, task_id_text(now_millis as nat)) ==> r@ == task_id_text(
                now_millis as nat,
            ),
            final(self)@ == old(self)@.push(
                TaskView::created(r@, url@, optional_str(format_id), (now_millis / 1000) as int),
            ),
            final(self).settings() == old(self).settings(),
            final(self).batches() == old(self).batches(),
            found(final(self)@, r@) == Some(
                TaskView::created(r@, url@, optional_str(format_id), (now_millis / 1000) as int),
            ),
    {
        let id = self.free_task_id(now_millis);
        let format = match format_id {
            Some(f) => Some(f.to_string()),
            None => None,
        };
        let seconds = (now_millis / 1000) as i64;
        let task = DownloadTask::new(id.clone(), url.to_string(), format, seconds);
        self.repository.save(&task);
        id
    }

    fn invocation_for(&self, task: &DownloadTask, format_id: Option<&str>) -> (r: Invocation)
        ensures
            r@ == download_call(self.settings(), task@, optional_str(format_id)),
    {
        let downloader = YtDlpContentDownloader::new();
        match format_id {
            Some(f) => downloader.invocation(&self.config, Some(f), task.url()),
            None => match task.format_id() {
                Some(own) => downloader.invocation(&self.config, Some(own.as_str()), task.url()),
                None => downloader.invocation(&self.config, None, task.url()),
            },
        }
    }

    /// The call of the downloader that would fetch a pending task, in the
    /// format given here or else in the task's own. Nothing changes, so
    /// that the downloader can be launched before the task is started and a
    /// launch that fails leaves the task pending. Without such a task the
    /// result is `TaskNotFound`, with a task that is not pending
    /// `InvalidState`.
    pub fn prepare_download(&self, task_id: &str, format_id: Option<&str>) -> (r: Result<
        Invocation,
        DownloadError,
    >)
        ensures
            match r {
                Ok(call) => has_id(self@, task_id@) && self@[position(self@, task_id@)].status
                    is Pending && call@ == download_call(
                    self.settings(),
                    self@[position(self@, task_id@)],
                    optional_str(format_id),
                ),
                Err(e) => if has_id(self@, task_id@) {
                    !(self@[position(self@, task_id@)].status is Pending) && e
                        == DownloadError::InvalidState
                } else {
                    e == DownloadError::TaskNotFound
                },
            },
    {
        proof {
            lemma_has_id(self@, task_id@);
        }
        match self.repository.find_by_id(task_id) {
            None => Err(DownloadError::TaskNotFound),
            Some(task) => match task.status() {
                DownloadStatus::Pending => Ok(self.invocation_for(&task, format_id)),
                _ => Err(DownloadError::InvalidState),
            },
        }
    }

    /// Starts the download of a pending task: the task is downloading
    /// afterwards, and the result is the call of the downloader that
    /// fetches it, in the format given here or else in the task's own.
    /// Without such a task the result is `TaskNotFound`, with a task that
    /// is not pending `InvalidState`; nothing changes then.
    pub fn start_download(&mut self, task_id: &str, format_id: Option<&str>, now: i64) -> (r: Result<
        Invocation,
        DownloadError,
    >)
        ensures
            final(self)@ == outcome(old(self)@, task_id@, Transition::Start, now as int).1,
            final(self).settings() == old(self).settings(),
            final(self).batches() == old(self).batches(),
            match r {
                Ok(call) => outcome(old(self)@, task_id@, Transition::Start, now as int).0 is Ok
                    && call@ == download_call(
                    old(self).settings(),
                    old(self)@[position(old(self)@, task_id@)],
                    optional_str(format_id),
                ),
                Err(e) => outcome(old(self)@, task_id@, Transition::Start, now as int).0 == Err::<
                    (),
                    DownloadError,
                >(e),
            },
    {
        proof {
            lemma_has_id(self@, task_id@);
        }
        match self.repository.find_by_id(task_id) {
            None => Err(DownloadError::TaskNotFound),
            Some(mut task) => match task.start(now) {
                Err(e) => Err(DownloadError::from_task_error(e)),
                Ok(()) => {
                    let updated = self.repository.update(&task);
                    assert(updated is Ok);
                    Ok(self.invocation_for(&task, format_id))
                },
            },
        }
    }

    /// Records whether the downloader of a prepared task could be launched.
    /// After a launch the task is started; a launch that failed is
    /// reported as `SpawnFailure` at once and leaves the task as it is,
    /// so that the start can be tried again.
    pub fn record_launch(&mut self, task_id: &str, launched: bool, now: i64) -> (r: Result<
        (),
        DownloadError,
    >)
        ensures
            launched ==> (r, final(self)@) == outcome(
                old(self)@,
                task_id@,
                Transition::Start,
                now as int,
            ),
            !launched ==> r == Err::<(), DownloadError>(DownloadError::SpawnFailure) && final(self)@
                == old(self)@,
            final(self).settings() == old(self).settings(),
            final(self).batches() == old(self).batches(),
    {
        if !launched {
            return Err(DownloadError::SpawnFailure);
        }
        proof {
            lemma_has_id(self@, task_id@);
        }
        match self.repository.find_by_id(task_id) {
            None => Err(DownloadError::TaskNotFound),
            Some(mut task) => match task.start(now) {
                Err(e) => Err(DownloadError::from_task_error(e)),
                Ok(()) => {
                    let updated = self.repository.update(&task);
                    assert(updated is Ok);
                    Ok(())
                },
            },
        }
    }

    /// Applies a progress report of the downloader to the task.
    pub fn update_progress(&mut self, task_id: &str, progress: u32, speed: String, now: i64) -> (r:
        Result<(), DownloadError>)
        ensures
            (r, final(self)@) == outcome(
                old(self)@,
                task_id@,
                Transition::Progress { progress: progress as nat, speed: speed@ },
                now as int,
            ),
            final(self).settings() == old(self).settings(),
            final(self).batches() == old(self).batches(),
    {
        proof {
            lemma_has_id(self@, task_id@);
        }
        match self.repository.find_by_id(task_id) {
            None => Err(DownloadError::TaskNotFound),
            Some(mut task) => match task.update_progress(progress, speed, now) {
                Err(e) => Err(DownloadError::from_task_error(e)),
                Ok(()) => {
                    let updated = self.repository.update(&task);
                    assert(updated is Ok);
                    Ok(())
                },
            },
        }
    }

    /// Handles one line of the downloader's output. A line that reports a
    /// percentage is applied to the task as a progress report, and the
    /// result tells whether that was done; any other line changes nothing.
    pub fn handle_output_line(&mut self, task_id: &str, line: &str, now: i64) -> (r: Result<
        bool,
        DownloadError,
    >)
        ensures
            final(self).settings() == old(self).settings(),
            final(self).batches() == old(self).batches(),
            match line_transition(line@) {
                None => r == Ok::<bool, DownloadError>(false) && final(self)@ == old(self)@,
                Some(transition) => final(self)@ == outcome(
                    old(self)@,
                    task_id@,
                    transition,
                    now as int,
                ).1 && match outcome(old(self)@, task_id@, transition, now as int).0 {
                    Ok(_) => r == Ok::<bool, DownloadError>(true),
                    Err(e) => r == Err::<bool, DownloadError>(e),
                },
            },
    {
        let (progress, speed) = parse_line(line);
        match progress {
            None => Ok(false),
            Some(p) => {
                let speed = match speed {
                    Some(s) => s,
                    None => "0 KB/s".to_string(),
                };
                match self.update_progress(task_id, p, speed, now) {
                    Ok(()) => Ok(true),
                    Err(e) => Err(e),
                }
            },
        }
    }

    /// The error message of a task whose downloader ended with the given
    /// exit code.
    pub fn failure_message(exit_code: i32) -> (r: String)
        ensures
            r@ == failure_text(exit_code as int),
    {
        let mut message = "Download failed with exit code ".to_string();
        append_integer(&mut message, exit_code as i64);
        message
    }

    /// Records the end of the downloader: after a successful end the task
    /// is completed, after any other it is failed with a message that
    /// names the exit code. A task that was completed, failed or cancelled
    /// before stays as it is, and the result is `InvalidState`.
    pub fn finish_download(&mut self, task_id: &str, success: bool, exit_code: i32, now: i64) -> (r:
        Result<(), DownloadError>)
        ensures
            (r, final(self)@) == outcome(
                old(self)@,
                task_id@,
                exit_transition(success, exit_code as int),
                now as int,
            ),
            final(self).settings() == old(self).settings(),
            final(self).batches() == old(self).batches(),
    {
        proof {
            lemma_has_id(self@, task_id@);
        }
        match self.repository.find_by_id(task_id) {
            None => Err(DownloadError::TaskNotFound),
            Some(mut task) => {
                let changed = if success {
                    task.mark_completed(now)
                } else {
                    task.mark_failed(Self::failure_message(exit_code), now)
                };
                match changed {
                    Err(e) => Err(DownloadError::from_task_error(e)),
                    Ok(()) => {
                        let updated = self.repository.update(&task);
                        assert(updated is Ok);
                        Ok(())
                    },
                }
            },
        }
    }

    /// Records that the downloader of the task could not be started: the
    /// task is failed with the given message.
    pub fn fail_download(&mut self, task_id: &str, message: String, now: i64) -> (r: Result<
        (),
        DownloadError,
    >)
        ensures
            (r, final(self)@) == outcome(
                old(self)@,
                task_id@,
                Transition::Fail { error: message@ },
                now as int,
            ),
            final(self).settings() == old(self).settings(),
            final(self).batches() == old(self).batches(),
    {
        proof {
            lemma_has_id(self@, task_id@);
        }
        match self.repository.find_by_id(task_id) {
            None => Err(DownloadError::TaskNotFound),
            Some(mut task) => match task.mark_failed(message, now) {
                Err(e) => Err(DownloadError::from_task_error(e)),
                Ok(()) => {
                    let updated = self.repository.update(&task);
                    assert(updated is Ok);
                    Ok(())
                },
            },
        }
    }

    /// Cancels the task. A task that is completed, failed or cancelled
    /// already stays as it is, and the result is `InvalidState`.
    pub fn cancel_download(&mut self, task_id: &str, now: i64) -> (r: Result<(), DownloadError>)
        ensures
            (r, final(self)@) == outcome(old(self)@, task_id@, Transition::Cancel, now as int),
            final(self).settings() == old(self).settings(),
            final(self).batches() == old(self).batches(),
    {
        proof {
            lemma_has_id(self@, task_id@);
        }
        match self.repository.find_by_id(task_id) {
            None => Err(DownloadError::TaskNotFound),
            Some(mut task) => match task.cancel(now) {
                Err(e) => Err(DownloadError::from_task_error(e)),
                Ok(()) => {
                    let updated = self.repository.update(&task);
                    assert(updated is Ok);
                    Ok(())
                },
            },
        }
    }

    /// Pauses a pending or downloading task.
    pub fn pause_download(&mut self, task_id: &str, now: i64) -> (r: Result<(), DownloadError>)
        ensures
            (r, final(self)@) == outcome(old(self)@, task_id@, Transition::Pause, now as int),
            final(self).settings() == old(self).settings(),
            final(self).batches() == old(self).batches(),
    {
        proof {
            lemma_has_id(self@, task_id@);
        }
        match self.repository.find_by_id(task_id) {
            None => Err(DownloadError::TaskNotFound),
            Some(mut task) => match task.pause(now) {
                Err(e) => Err(DownloadError::from_task_error(e)),
                Ok(()) => {
                    let updated = self.repository.update(&task);
                    assert(updated is Ok);
                    Ok(())
                },
            },
        }
    }

    /// Resumes a paused task.
    pub fn resume_download(&mut self, task_id: &str, now: i64) -> (r: Result<(), DownloadError>)
        ensures
            (r, final(self)@) == outcome(old(self)@, task_id@, Transition::Resume, now as int),
            final(self).settings() == old(self).settings(),
            final(self).batches() == old(self).batches(),
    {
        proof {
            lemma_has_id(self@, task_id@);
        }
        match self.repository.find_by_id(task_id) {
            None => Err(DownloadError::TaskNotFound),
            Some(mut task) => match task.resume(now) {
                Err(e) => Err(DownloadError::from_task_error(e)),
                Ok(()) => {
                    let updated = self.repository.update(&task);
                    assert(updated is Ok);
                    Ok(())
                },
            },
        }
    }

    /// Removes the task for good, whatever its status.
    pub fn delete_download(&mut self, task_id: &str) -> (r: Result<(), DownloadError>)
        ensures
            r is Ok <==> has_id(old(self)@, task_id@),
            r is Err ==> r == Err::<(), DownloadError>(DownloadError::TaskNotFound),
            final(self)@ == deleted(old(self)@, task_id@),
            !has_id(final(self)@, task_id@),
            final(self).settings() == old(self).settings(),
            final(self).batches() == old(self).batches(),
    {
        match self.repository.delete(task_id) {
            Ok(()) => Ok(()),
            Err(e) => Err(DownloadError::from_repository_error(e)),
        }
    }

    /// Removes each of the given tasks that is stored; ids that are not
    /// stored are passed over.
    pub fn batch_delete_downloads(&mut self, task_ids: &Vec<String>) -> (r: Result<(), DownloadError>)
        ensures
            r is Ok,
            final(self)@ == deleted_all(old(self)@, texts(task_ids@)),
            final(self).settings() == old(self).settings(),
            final(self).batches() == old(self).batches(),
    {
        let ghost ids = texts(task_ids@);
        let mut i: usize = 0;
        assert(ids.subrange(0, 0) =~= Seq::<Seq<char>>::empty());
        while i < task_ids.len()
            invariant
                i <= task_ids@.len(),
                ids == texts(task_ids@),
                self@ == deleted_all(old(self)@, ids.subrange(0, i as int)),
                self.settings() == old(self).settings(),
                self.batches() == old(self).batches(),
            decreases task_ids@.len() - i,
        {
            let _ = self.repository.delete(task_ids[i].as_str());
            proof {
                let upto = ids.subrange(0, i + 1);
                assert(upto.drop_last() =~= ids.subrange(0, i as int));
                assert(upto.last() == task_ids@[i as int]@);
            }
            i += 1;
        }
        assert(ids.subrange(0, i as int) =~= ids);
        Ok(())
    }

    /// Removes the completed tasks for good and keeps the others in their
    /// order.
    pub fn cleanup_completed_tasks(&mut self) -> (r: Result<(), DownloadError>)
        ensures
            r is Ok,
            final(self)@ == old(self)@.filter(unfinished()),
            final(self).settings() == old(self).settings(),
            final(self).batches() == old(self).batches(),
    {
        self.repository.remove_completed();
        Ok(())
    }

    fn batch_number_is_open(
        &self,
        stored: &Vec<DownloadTask>,
        id: &String,
        Ghost(n): Ghost<nat>,
    ) -> (r: bool)
        requires
            views(stored@) == self@,
            id@ == batch_id_text(n),
        ensures
            r == batch_is_open(self.batches(), self@, n),
    {
        proof {
            lemma_batch_ids(self.batches(), id@);
        }
        if self.batches.find_by_id(id.as_str()).is_some() {
            return false;
        }
        let mut lead = "task_".to_string();
        lead.append(id.as_str());
        lead.append("_");
        let prefix = chars_of(lead.as_str());
        proof {
            reveal_strlit("_");
            assert("_"@ =~= seq!['_']);
            assert(prefix@ =~= group_prefix(child_lead(), n));
        }
        let mut i: usize = 0;
        while i < stored.len()
            invariant
                i <= stored@.len(),
                views(stored@) == self@,
                prefix@ == group_prefix(child_lead(), n),
                forall|k: int| 0 <= k < i ==> !has_prefix(#[trigger] task_ids(self@)[k], prefix@),
            decreases stored@.len() - i,
        {
            let id_chars = chars_of(stored[i].id().as_str());
            assert(task_ids(self@)[i as int] == stored@[i as int]@.id);
            if starts_with(&id_chars, &prefix) {
                return false;
            }
            i += 1;
        }
        true
    }

    /// The id for a batch created at the given time: the id of the first
    /// millisecond from that time onwards under which no batch is stored
    /// and to whose batch no stored task belongs.
    pub fn free_batch_id(&self, now_millis: u64) -> (r: String)
        ensures
            r@ == free_batch_id_text(self.batches(), self@, now_millis as nat),
            batch_is_open(
                self.batches(),
                self@,
                free_batch_time(self.batches(), self@, now_millis as nat),
            ),
            !has_batch(self.batches(), r@),
            batch_is_open(self.batches(), self@, now_millis as nat) ==> r@ == batch_id_text(
                now_millis as nat,
            ),
    {
        let ghost own = batch_ids(self.batches());
        let ghost others = task_ids(self@);
        let ghost from = now_millis as nat;
        let stored = self.repository.find_all();
        let batches = self.batches.find_all();
        let count: u128 = stored.len() as u128 + batches.len() as u128;
        let mut n: u128 = now_millis as u128;
        let mut id = BatchDownloadTask::numbered_id(n);
        proof {
            lemma_batch_ids(self.batches(), id@);
            lemma_task_ids(self@, id@);
            lemma_closed_numbers_are_few(own, batch_prefix(), others, child_lead(), from, from);
        }
        while !self.batch_number_is_open(&stored, &id, Ghost(n as nat))
            invariant
                own == batch_ids(self.batches()),
                others == task_ids(self@),
                views(stored@) == self@,
                from == now_millis,
                count == own.len() + others.len(),
                count <= 0x2_0000_0000_0000_0000,
                from <= n,
                n - from <= count,
                id@ == batch_id_text(n as nat),
                forall|m: nat|
                    from <= m < n ==> !#[trigger] is_open(
                        own,
                        batch_prefix(),
                        others,
                        child_lead(),
                        m,
                    ),
            decreases count - (n - from),
        {
            proof {
                lemma_closed_numbers_are_few(
                    own,
                    batch_prefix(),
                    others,
                    child_lead(),
                    from,
                    (n + 1) as nat,
                );
            }
            n = n + 1;
            id = BatchDownloadTask::numbered_id(n);
        }
        proof {
            lemma_first_open_is_unique(own, batch_prefix(), others, child_lead(), from, n as nat);
            lemma_first_open_exists(own, batch_prefix(), others, child_lead(), from);
            lemma_batch_ids(self.batches(), id@);
        }
        id
    }

    /// Creates a batch for `url` and the given formats at the given time, in
    /// milliseconds since the Unix epoch, stores it after the batches
    /// stored before and returns its id. The id is one that no stored batch
    /// has and to which no stored task belongs: that of the given
    /// millisecond, or of the first one after it that is open. A format
    /// that is named more than once counts once. No task is created yet.
    pub fn create_batch_download_task(&mut self, url: &str, format_ids: &Vec<String>, now_millis: u64) -> (r:
        String)
        ensures
            r@ == free_batch_id_text(old(self).batches(), old(self)@, now_millis as nat),
            !has_batch(old(self).batches(), r@),
            batch_is_open(
                old(self).batches(),
                old(self)@,
                free_batch_time(old(self).batches(), old(self)@, now_millis as nat),
            ),
            batch_is_open(old(self).batches(), old(self)@, now_millis as nat) ==> r@
                == batch_id_text(now_millis as nat),
            final(self).batches() == old(self).batches().push(
                BatchView {
                    id: r@,
                    url: url@,
                    format_ids: distinct(texts(format_ids@)),
                    created_at: (now_millis / 1000) as int,
                },
            ),
            final(self)@ == old(self)@,
            final(self).settings() == old(self).settings(),
    {
        let id = self.free_batch_id(now_millis);
        let batch = BatchDownloadTask::new(
            id.clone(),
            url.to_string(),
            distinct_formats(format_ids),
            (now_millis / 1000) as i64,
        );
        self.batches.save(&batch);
        id
    }

    /// Creates a batch and starts it: for each distinct format one task is
    /// stored after the tasks stored before, downloading from the start,
    /// and the result holds the id of the batch and, format by format, the
    /// id of the task and the call of the downloader that fetches it. No
    /// task stored before is changed.
    pub fn start_batch_download(&mut self, url: &str, format_ids: &Vec<String>, now_millis: u64) -> (r:
        (String, Vec<StartedDownload>))
        ensures
            r.0@ == free_batch_id_text(old(self).batches(), old(self)@, now_millis as nat),
            !has_batch(old(self).batches(), r.0@),
            batch_is_open(old(self).batches(), old(self)@, now_millis as nat) ==> r.0@
                == batch_id_text(now_millis as nat),
            final(self).batches() == old(self).batches().push(
                BatchView {
                    id: r.0@,
                    url: url@,
                    format_ids: distinct(texts(format_ids@)),
                    created_at: (now_millis / 1000) as int,
                },
            ),
            final(self)@ == old(self)@ + batch_children(
                r.0@,
                url@,
                distinct(texts(format_ids@)),
                (now_millis / 1000) as int,
            ),
            started_views(r.1@) == batch_downloads(
                old(self).settings(),
                r.0@,
                url@,
                distinct(texts(format_ids@)),
            ),
            final(self).settings() == old(self).settings(),
    {
        let ghost before = self@;
        let ghost n = free_batch_time(self.batches(), self@, now_millis as nat);
        let id = self.create_batch_download_task(url, format_ids, now_millis);
        let chosen = distinct_formats(format_ids);
        let now = (now_millis / 1000) as i64;
        let ghost formats = texts(chosen@);
        let mut started: Vec<StartedDownload> = Vec::new();
        let mut i: usize = 0;
        proof {
            assert(self@ =~= before + batch_children(
                id@,
                url@,
                formats.subrange(0, 0),
                now as int,
            ));
            assert(started_views(started@) =~= batch_downloads(
                self.settings(),
                id@,
                url@,
                formats.subrange(0, 0),
            ));
        }
        while i < chosen.len()
            invariant
                i <= chosen@.len(),
                formats == texts(chosen@),
                formats.no_duplicates(),
                now == now_millis / 1000,
                id@ == batch_id_text(n),
                !group_used(task_ids(before), child_lead(), n),
                self@ == before + batch_children(
                    id@,
                    url@,
                    formats.subrange(0, i as int),
                    now as int,
                ),
                self.settings() == old(self).settings(),
                self.batches() == old(self).batches().push(
                    BatchView {
                        id: id@,
                        url: url@,
                        format_ids: distinct(texts(format_ids@)),
                        created_at: (now_millis / 1000) as int,
                    },
                ),
                started_views(started@) == batch_downloads(
                    old(self).settings(),
                    id@,
                    url@,
                    formats.subrange(0, i as int),
                ),
            decreases chosen@.len() - i,
        {
            let format = chosen[i].as_str();
            let mut child_id = "task_".to_string();
            child_id.append(id.as_str());
            child_id.append("_");
            child_id.append(format);
            assert(child_id@ =~= child_id_text(id@, format@));
            let mut task = DownloadTask::new(
                child_id.clone(),
                url.to_string(),
                Some(format.to_string()),
                now,
            );
            let begun = task.start(now);
            assert(begun is Ok);
            let ghost so_far = self@;
            let ghost started_so_far = started@;
            proof {
                assert(formats[i as int] == format@);
                lemma_child_is_new(before, n, url@, formats, now as int, i as int);
            }
            self.repository.save(&task);
            started.push(
                StartedDownload {
                    task_id: child_id,
                    call: YtDlpContentDownloader::new().invocation(&self.config, Some(format), url),
                },
            );
            proof {
                let upto = formats.subrange(0, i + 1);
                assert(upto =~= formats.subrange(0, i as int).push(format@));
                assert(self@ == so_far.push(task@));
                assert(self@ =~= before + batch_children(id@, url@, upto, now as int));
                assert(started_views(started@) =~= started_views(started_so_far).push(
                    started@[i as int]@,
                ));
                assert(started_views(started@) =~= batch_downloads(
                    old(self).settings(),
                    id@,
                    url@,
                    upto,
                ));
            }
            i += 1;
        }
        assert(formats.subrange(0, i as int) =~= formats);
        (id, started)
    }

    /// The status and the progress of a batch, worked out from its tasks
    /// as they stand now.
    pub fn get_batch_progress(&self, batch_id: &str) -> (r: Option<(DownloadStatus, u32)>)
        ensures
            r is Some <==> batch_summary(self.batches(), self@, batch_id@) is Some,
            r matches Some(s) ==> batch_summary(self.batches(), self@, batch_id@) == Some(
                (s.0, s.1 as nat),
            ) && s.1 <= FULL_PROGRESS,
    {
        let batch = match self.batches.find_by_id(batch_id) {
            Some(batch) => batch,
            None => {
                return None;
            },
        };
        proof {
            crate::batch::lemma_batch_position_from(self.batches(), batch_id@, 0);
        }
        let ghost formats = texts(batch.format_ids@);
        let mut children: Vec<DownloadTask> = Vec::new();
        let mut i: usize = 0;
        assert(views(children@) =~= children_of(self@, batch_id@, formats.subrange(0, 0)));
        while i < batch.format_ids.len()
            invariant
                i <= batch.format_ids@.len(),
                formats == texts(batch.format_ids@),
                batch@.id == batch_id@,
                views(children@) == children_of(self@, batch_id@, formats.subrange(0, i as int)),
            decreases batch.format_ids@.len() - i,
        {
            let child_id = batch.child_id(batch.format_ids[i].as_str());
            proof {
                let upto = formats.subrange(0, i + 1);
                assert(upto.drop_last() =~= formats.subrange(0, i as int));
                assert(upto.last() == batch.format_ids@[i as int]@);
            }
            match self.repository.find_by_id(child_id.as_str()) {
                Some(task) => {
                    let ghost so_far = children@;
                    children.push(task);
                    assert(views(children@) =~= views(so_far).push(task@));
                },
                None => {},
            }
            i += 1;
        }
        assert(formats.subrange(0, i as int) =~= formats);
        Some(BatchDownloadTask::summary(&children))
    }

    /// Copies of all tasks, each id once, in the order of their creation.
    pub fn get_all_tasks(&self) -> (r: Vec<DownloadTask>)
        ensures
            views(r@) == self@,
            distinct_ids(views(r@)),
            all_valid(views(r@)),
    {
        self.repository.find_all()
    }

    /// A copy of the task with the given id.
    pub fn get_task_by_id(&self, task_id: &str) -> (r: Option<DownloadTask>)
        ensures
            r is Some <==> has_id(self@, task_id@),
            r matches Some(t) ==> found(self@, task_id@) == Some(t@) && t@.valid(),
    {
        self.repository.find_by_id(task_id)
    }

    /// A copy of the task with the given id, as it stands now.
    pub fn get_download_progress(&self, task_id: &str) -> (r: Option<DownloadTask>)
        ensures
            r is Some <==> has_id(self@, task_id@),
            r matches Some(t) ==> found(self@, task_id@) == Some(t@) && t@.valid(),
    {
        self.repository.find_by_id(task_id)
    }

    /// How many tasks there are, and how many in each status.
    pub fn get_download_stats(&self) -> (r: DownloadStats)
        ensures
            r.total == self@.len(),
            r.pending == count_with_status(self@, DownloadStatus::Pending),
            r.downloading == count_with_status(self@, DownloadStatus::Downloading),
            r.completed == count_with_status(self@, DownloadStatus::Completed),
            r.failed == count_with_status(self@, DownloadStatus::Failed),
            r.cancelled == count_with_status(self@, DownloadStatus::Cancelled),
            r.paused == count_with_status(self@, DownloadStatus::Paused),
    {
        DownloadStats {
            total: self.repository.len(),
            pending: self.repository.count_status(DownloadStatus::Pending),
            downloading: self.repository.count_status(DownloadStatus::Downloading),
            completed: self.repository.count_status(DownloadStatus::Completed),
            failed: self.repository.count_status(DownloadStatus::Failed),
            cancelled: self.repository.count_status(DownloadStatus::Cancelled),
            paused: self.repository.count_status(DownloadStatus::Paused),
        }
    }
}

/// A service without tasks and without batches that works with the
/// default settings.
pub fn create_download_service() -> (r: DownloadService)
    ensures
        r@ == Seq::<TaskView>::empty(),
        r.batches() == Seq::<BatchView>::empty(),
        r.settings() == crate::config::default_config(),
{
    DownloadService::new()
}

/// What the runner of a process reports at its end.
pub fn outcome_of_exit(success: bool, exit_code: i32) -> (r: Result<(), DownloadError>)
    ensures
        r == exit_outcome(success, exit_code),
        r is Ok <==> success,
{
    if success {
        Ok(())
    } else {
        Err(DownloadError::ExitFailure(exit_code))
    }
}

} // verus!
