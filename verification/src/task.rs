//! The download task entity and its state machine.
//!
//! A task starts as `Pending`, becomes `Downloading` when it is started or
//! when the downloader reports progress, and ends as `Completed`, `Failed` or
//! `Cancelled`. A task in one of these three states never changes again.

use vstd::prelude::*;
use crate::error::TaskError;
use crate::status::DownloadStatus;

verus! {

/// Progress is counted in hundredths of a percent; this is one hundred percent.
pub const FULL_PROGRESS: u32 = 10_000;

/// The speed text of a task that is not transferring anything.
pub open spec fn idle_speed() -> Seq<char> {
    "0 KB/s"@
}

/// The characters of an optional string.
pub open spec fn option_text(o: Option<String>) -> Option<Seq<char>> {
    match o {
        Some(s) => Some(s@),
        None => None,
    }
}

/// The later of a task's last modification time and the current time.
pub open spec fn later(updated_at: int, now: int) -> int {
    if now > updated_at {
        now
    } else {
        updated_at
    }
}

/// The mathematical value of a download task.
pub struct TaskView {
    pub id: Seq<char>,
    pub url: Seq<char>,
    pub format_id: Option<Seq<char>>,
    pub status: DownloadStatus,
    /// Hundredths of a percent.
    pub progress: nat,
    pub speed: Seq<char>,
    pub error: Option<Seq<char>>,
    /// Seconds since the Unix epoch.
    pub created_at: int,
    /// Seconds since the Unix epoch.
    pub updated_at: int,
}

impl TaskView {
    /// What holds of every task: progress is at most one hundred percent, a
    /// completed task has all of it, a failed task carries its error, and
    /// the task was not modified before it was created.
    pub open spec fn valid(self) -> bool {
        &&& self.progress <= FULL_PROGRESS
        &&& self.status is Completed ==> self.progress == FULL_PROGRESS
        &&& self.status is Failed ==> self.error is Some
        &&& self.created_at <= self.updated_at
    }

    /// The task as it is created at time `now`.
    pub open spec fn created(
        id: Seq<char>,
        url: Seq<char>,
        format_id: Option<Seq<char>>,
        now: int,
    ) -> TaskView {
        TaskView {
            id,
            url,
            format_id,
            status: DownloadStatus::Pending,
            progress: 0,
            speed: idle_speed(),
            error: None,
            created_at: now,
            updated_at: now,
        }
    }

    /// The task after its downloader was launched.
    pub open spec fn started(self, now: int) -> TaskView {
        TaskView {
            status: DownloadStatus::Downloading,
            updated_at: later(self.updated_at, now),
            ..self
        }
    }

    /// The task after a progress report.
    pub open spec fn progressed(self, progress: nat, speed: Seq<char>, now: int) -> TaskView {
        TaskView {
            status: DownloadStatus::Downloading,
            progress,
            speed,
            updated_at: later(self.updated_at, now),
            ..self
        }
    }

    /// The task after its downloader ended with success.
    pub open spec fn completed(self, now: int) -> TaskView {
        TaskView {
            status: DownloadStatus::Completed,
            progress: FULL_PROGRESS as nat,
            updated_at: later(self.updated_at, now),
            ..self
        }
    }

    /// The task after its downloader ended with success, with the speed
    /// set back to idle.
    pub open spec fn finished(self, now: int) -> TaskView {
        TaskView { speed: idle_speed(), ..self.completed(now) }
    }

    /// The task after a failure with the given message.
    pub open spec fn failed(self, error: Seq<char>, now: int) -> TaskView {
        TaskView {
            status: DownloadStatus::Failed,
            error: Some(error),
            updated_at: later(self.updated_at, now),
            ..self
        }
    }

    /// The task after it was cancelled.
    pub open spec fn cancelled(self, now: int) -> TaskView {
        TaskView {
            status: DownloadStatus::Cancelled,
            speed: idle_speed(),
            updated_at: later(self.updated_at, now),
            ..self
        }
    }

    /// The task after it was paused.
    pub open spec fn paused(self, now: int) -> TaskView {
        TaskView {
            status: DownloadStatus::Paused,
            speed: idle_speed(),
            updated_at: later(self.updated_at, now),
            ..self
        }
    }

    /// The task after it was resumed.
    pub open spec fn resumed(self, now: int) -> TaskView {
        TaskView {
            status: DownloadStatus::Downloading,
            updated_at: later(self.updated_at, now),
            ..self
        }
    }
}

/// What can happen to a task.
pub enum Transition {
    /// The downloader was launched.
    Start,
    /// The downloader reported progress, in hundredths of a percent, and speed.
    Progress { progress: nat, speed: Seq<char> },
    /// The downloader ended with success.
    Complete,
    /// The downloader ended with success; the speed goes back to idle.
    Finish,
    /// The download failed with the given message.
    Fail { error: Seq<char> },
    /// The user cancelled the task.
    Cancel,
    /// The user paused the task.
    Pause,
    /// The user resumed the task.
    Resume,
}

impl TaskView {
    /// Whether the transition is open to a task in this status, leaving
    /// aside what it carries.
    pub open spec fn allows(self, transition: Transition) -> bool {
        match transition {
            Transition::Start => self.status is Pending,
            Transition::Progress { .. } => self.status.is_running(),
            Transition::Complete => !self.status.is_terminal(),
            Transition::Finish => !self.status.is_terminal(),
            Transition::Fail { .. } => !self.status.is_terminal(),
            Transition::Cancel => !self.status.is_terminal(),
            Transition::Pause => self.status.is_running(),
            Transition::Resume => self.status is Paused,
        }
    }

    /// The task after the transition at time `now`, or why the task
    /// refuses it.
    pub open spec fn apply(self, transition: Transition, now: int) -> Result<TaskView, TaskError> {
        if !self.allows(transition) {
            Err(TaskError::InvalidState)
        } else {
            match transition {
                Transition::Start => Ok(self.started(now)),
                Transition::Progress { progress, speed } => if progress <= FULL_PROGRESS {
                    Ok(self.progressed(progress, speed, now))
                } else {
                    Err(TaskError::ProgressOutOfRange)
                },
                Transition::Complete => Ok(self.completed(now)),
                Transition::Finish => Ok(self.finished(now)),
                Transition::Fail { error } => Ok(self.failed(error, now)),
                Transition::Cancel => Ok(self.cancelled(now)),
                Transition::Pause => Ok(self.paused(now)),
                Transition::Resume => Ok(self.resumed(now)),
            }
        }
    }
}

/// Whether a call that reported `result` and left the task as `after` did
/// what the transition says: on success the task is the next one, on
/// refusal the error is reported and the task is as before.
pub open spec fn follows(
    before: TaskView,
    transition: Transition,
    now: int,
    result: Result<(), TaskError>,
    after: TaskView,
) -> bool {
    match before.apply(transition, now) {
        Ok(next) => result is Ok && after == next,
        Err(e) => result == Err::<(), TaskError>(e) && after == before,
    }
}

/// A transition leads from a valid task to a valid task with the same
/// identity and creation time, and never sets the modification time back.
pub proof fn lemma_transition_keeps_valid(task: TaskView, transition: Transition, now: int)
    requires
        task.valid(),
    ensures
        task.apply(transition, now) matches Ok(next) ==> {
            &&& next.valid()
            &&& next.id == task.id
            &&& next.url == task.url
            &&& next.format_id == task.format_id
            &&& next.created_at == task.created_at
            &&& next.updated_at >= task.updated_at
        },
{
}

/// A completed task has full progress and a failed task has an error
/// message, whatever led to it.
pub proof fn lemma_terminal_tasks_are_settled(task: TaskView, transition: Transition, now: int)
    requires
        task.valid(),
    ensures
        task.status is Completed ==> task.progress == FULL_PROGRESS,
        task.status is Failed ==> task.error is Some,
        task.apply(transition, now) matches Ok(next) ==> {
            &&& next.status is Completed ==> next.progress == FULL_PROGRESS
            &&& next.status is Failed ==> next.error is Some
        },
{
}

/// A completed, failed or cancelled task refuses every transition: what
/// comes first wins, and a cancellation after the end changes nothing.
pub proof fn lemma_terminal_is_final(task: TaskView, transition: Transition, now: int)
    requires
        task.status.is_terminal(),
    ensures
        task.apply(transition, now) == Err::<TaskView, TaskError>(TaskError::InvalidState),
        task.completed(now).apply(Transition::Cancel, now) == Err::<TaskView, TaskError>(
            TaskError::InvalidState,
        ),
{
}

/// The statuses that a task passes through when it is started, reports
/// progress and ends with success.
pub proof fn lemma_successful_run(
    task: TaskView,
    progress: nat,
    speed: Seq<char>,
    t1: int,
    t2: int,
    t3: int,
)
    requires
        task.status is Pending,
        progress <= FULL_PROGRESS,
    ensures
        ({
            &&& task.apply(Transition::Start, t1) matches Ok(started)
            &&& started.status is Downloading
            &&& started.apply(Transition::Progress { progress, speed }, t2) matches Ok(running)
            &&& running.status is Downloading
            &&& running.progress == progress
            &&& running.speed == speed
            &&& running.apply(Transition::Complete, t3) matches Ok(done)
            &&& done.status is Completed
            &&& done.progress == FULL_PROGRESS
        }),
{
}

/// One request to fetch a single remote resource.
#[derive(Debug)]
pub struct DownloadTask {
    id: String,
    url: String,
    format_id: Option<String>,
    status: DownloadStatus,
    progress: u32,
    speed: String,
    error: Option<String>,
    created_at: i64,
    updated_at: i64,
}

impl View for DownloadTask {
    type V = TaskView;

    closed spec fn view(&self) -> TaskView {
        TaskView {
            id: self.id@,
            url: self.url@,
            format_id: option_text(self.format_id),
            status: self.status,
            progress: self.progress as nat,
            speed: self.speed@,
            error: option_text(self.error),
            created_at: self.created_at as int,
            updated_at: self.updated_at as int,
        }
    }
}

impl Clone for DownloadTask {
    fn clone(&self) -> (r: Self)
        ensures
            r@ == self@,
    {
        proof {
            use_type_invariant(self);
        }
        DownloadTask {
            id: self.id.clone(),
            url: self.url.clone(),
            format_id: self.format_id.clone(),
            status: self.status,
            progress: self.progress,
            speed: self.speed.clone(),
            error: self.error.clone(),
            created_at: self.created_at,
            updated_at: self.updated_at,
        }
    }
}

impl DownloadTask {
    /// Every task is valid, at every point of every program.
    #[verifier::type_invariant]
    pub open spec fn well_formed(&self) -> bool {
        self@.valid()
    }

    /// Creates a pending task with no progress, at time `now`.
    pub fn new(id: String, url: String, format_id: Option<String>, now: i64) -> (r: Self)
        ensures
            r@ == TaskView::created(id@, url@, option_text(format_id), now as int),
            r@.valid(),
    {
        DownloadTask {
            id,
            url,
            format_id,
            status: DownloadStatus::Pending,
            progress: 0,
            speed: "0 KB/s".to_string(),
            error: None,
            created_at: now,
            updated_at: now,
        }
    }

    /// The task's identity.
    pub fn id(&self) -> (r: &String)
        ensures
            r@ == self@.id,
    {
        &self.id
    }

    /// The address of the resource.
    pub fn url(&self) -> (r: &str)
        ensures
            r@ == self@.url,
    {
        self.url.as_str()
    }

    /// The requested format, if one was named.
    pub fn format_id(&self) -> (r: &Option<String>)
        ensures
            option_text(*r) == self@.format_id,
    {
        &self.format_id
    }

    /// The task's status. A completed task has full progress and a failed
    /// task carries an error message.
    pub fn status(&self) -> (r: DownloadStatus)
        ensures
            r == self@.status,
            self@.valid(),
            r is Completed ==> self@.progress == FULL_PROGRESS,
            r is Failed ==> self@.error is Some,
    {
        proof {
            use_type_invariant(self);
        }
        self.status
    }

    /// The progress in hundredths of a percent, at most `FULL_PROGRESS`.
    pub fn progress(&self) -> (r: u32)
        ensures
            r == self@.progress,
            r <= FULL_PROGRESS,
            self@.status is Completed ==> r == FULL_PROGRESS,
    {
        proof {
            use_type_invariant(self);
        }
        self.progress
    }

    /// The last reported transfer speed.
    pub fn speed(&self) -> (r: &str)
        ensures
            r@ == self@.speed,
    {
        self.speed.as_str()
    }

    /// The failure message. A failed task always has one.
    pub fn error(&self) -> (r: &Option<String>)
        ensures
            option_text(*r) == self@.error,
            self@.status is Failed ==> r is Some,
    {
        proof {
            use_type_invariant(self);
        }
        &self.error
    }

    /// When the task was created, in seconds since the Unix epoch.
    pub fn created_at(&self) -> (r: i64)
        ensures
            r == self@.created_at,
            r <= self@.updated_at,
    {
        proof {
            use_type_invariant(self);
        }
        self.created_at
    }

    /// When the task was last modified, never before its creation.
    pub fn updated_at(&self) -> (r: i64)
        ensures
            r == self@.updated_at,
            r >= self@.created_at,
    {
        proof {
            use_type_invariant(self);
        }
        self.updated_at
    }

    fn touch(&mut self, now: i64)
        ensures
            final(self)@ == (TaskView { updated_at: later(old(self)@.updated_at, now as int), ..old(self)@ }),
    {
        proof {
            use_type_invariant(&*self);
        }
        if now > self.updated_at {
            self.updated_at = now;
        }
    }

    /// Records that the downloader was launched. Only a pending task can be
    /// started.
    pub fn start(&mut self, now: i64) -> (r: Result<(), TaskError>)
        ensures
            follows(old(self)@, Transition::Start, now as int, r, final(self)@),
            r is Ok <==> old(self)@.status is Pending,
            r is Ok ==> final(self)@ == old(self)@.started(now as int),
            r is Err ==> r == Err::<(), TaskError>(TaskError::InvalidState) && final(self)@ == old(
                self,
            )@,
            final(self)@.valid(),
    {
        proof {
            use_type_invariant(&*self);
        }
        match self.status {
            DownloadStatus::Pending => {
                self.status = DownloadStatus::Downloading;
                self.touch(now);
                Ok(())
            },
            _ => Err(TaskError::InvalidState),
        }
    }

    /// Applies a progress report of the downloader. A pending or downloading
    /// task takes it and is downloading afterwards; any other task refuses it.
    pub fn update_progress(&mut self, progress: u32, speed: String, now: i64) -> (r: Result<
        (),
        TaskError,
    >)
        ensures
            follows(
                old(self)@,
                Transition::Progress { progress: progress as nat, speed: speed@ },
                now as int,
                r,
                final(self)@,
            ),
            r is Ok <==> old(self)@.status.is_running() && progress <= FULL_PROGRESS,
            r is Ok ==> final(self)@ == old(self)@.progressed(progress as nat, speed@, now as int),
            r is Err ==> final(self)@ == old(self)@,
            !old(self)@.status.is_running() ==> r == Err::<(), TaskError>(TaskError::InvalidState),
            old(self)@.status.is_running() && progress > FULL_PROGRESS ==> r == Err::<
                (),
                TaskError,
            >(TaskError::ProgressOutOfRange),
            final(self)@.valid(),
    {
        proof {
            use_type_invariant(&*self);
        }
        if !self.status.running() {
            return Err(TaskError::InvalidState);
        }
        if progress > FULL_PROGRESS {
            return Err(TaskError::ProgressOutOfRange);
        }
        self.progress = progress;
        self.speed = speed;
        self.status = DownloadStatus::Downloading;
        self.touch(now);
        Ok(())
    }

    /// Records that the downloader ended with success. A task in a terminal
    /// status refuses it.
    pub fn mark_completed(&mut self, now: i64) -> (r: Result<(), TaskError>)
        ensures
            follows(old(self)@, Transition::Complete, now as int, r, final(self)@),
            r is Ok <==> !old(self)@.status.is_terminal(),
            r is Ok ==> final(self)@ == old(self)@.completed(now as int),
            r is Err ==> r == Err::<(), TaskError>(TaskError::InvalidState) && final(self)@ == old(
                self,
            )@,
            final(self)@.valid(),
    {
        proof {
            use_type_invariant(&*self);
        }
        if self.status.terminal() {
            return Err(TaskError::InvalidState);
        }
        self.progress = FULL_PROGRESS;
        self.status = DownloadStatus::Completed;
        self.touch(now);
        Ok(())
    }

    /// As `mark_completed`, and sets the speed back to idle.
    pub fn complete(&mut self, now: i64) -> (r: Result<(), TaskError>)
        ensures
            follows(old(self)@, Transition::Finish, now as int, r, final(self)@),
            r is Ok <==> !old(self)@.status.is_terminal(),
            r is Ok ==> final(self)@ == old(self)@.finished(now as int),
            r is Err ==> r == Err::<(), TaskError>(TaskError::InvalidState) && final(self)@ == old(
                self,
            )@,
            final(self)@.valid(),
    {
        proof {
            use_type_invariant(&*self);
        }
        if self.status.terminal() {
            return Err(TaskError::InvalidState);
        }
        self.progress = FULL_PROGRESS;
        self.status = DownloadStatus::Completed;
        self.speed = "0 KB/s".to_string();
        self.touch(now);
        Ok(())
    }

    /// Records a failure with its message. A task in a terminal status
    /// refuses it.
    pub fn mark_failed(&mut self, error: String, now: i64) -> (r: Result<(), TaskError>)
        ensures
            follows(old(self)@, Transition::Fail { error: error@ }, now as int, r, final(self)@),
            r is Ok <==> !old(self)@.status.is_terminal(),
            r is Ok ==> final(self)@ == old(self)@.failed(error@, now as int),
            r is Err ==> r == Err::<(), TaskError>(TaskError::InvalidState) && final(self)@ == old(
                self,
            )@,
            final(self)@.valid(),
    {
        proof {
            use_type_invariant(&*self);
        }
        if self.status.terminal() {
            return Err(TaskError::InvalidState);
        }
        self.error = Some(error);
        self.status = DownloadStatus::Failed;
        self.touch(now);
        Ok(())
    }

    /// Cancels the task. A completed, failed or cancelled task stays as it
    /// is and the call reports `InvalidState`.
    pub fn cancel(&mut self, now: i64) -> (r: Result<(), TaskError>)
        ensures
            follows(old(self)@, Transition::Cancel, now as int, r, final(self)@),
            r is Ok <==> !old(self)@.status.is_terminal(),
            r is Ok ==> final(self)@ == old(self)@.cancelled(now as int),
            r is Err ==> r == Err::<(), TaskError>(TaskError::InvalidState) && final(self)@ == old(
                self,
            )@,
            final(self)@.valid(),
    {
        proof {
            use_type_invariant(&*self);
        }
        if self.status.terminal() {
            return Err(TaskError::InvalidState);
        }
        self.status = DownloadStatus::Cancelled;
        self.speed = "0 KB/s".to_string();
        self.touch(now);
        Ok(())
    }

    /// Pauses a pending or downloading task.
    pub fn pause(&mut self, now: i64) -> (r: Result<(), TaskError>)
        ensures
            follows(old(self)@, Transition::Pause, now as int, r, final(self)@),
            r is Ok <==> old(self)@.status.is_running(),
            r is Ok ==> final(self)@ == old(self)@.paused(now as int),
            r is Err ==> r == Err::<(), TaskError>(TaskError::InvalidState) && final(self)@ == old(
                self,
            )@,
            final(self)@.valid(),
    {
        proof {
            use_type_invariant(&*self);
        }
        if !self.status.running() {
            return Err(TaskError::InvalidState);
        }
        self.status = DownloadStatus::Paused;
        self.speed = "0 KB/s".to_string();
        self.touch(now);
        Ok(())
    }

    /// Resumes a paused task.
    pub fn resume(&mut self, now: i64) -> (r: Result<(), TaskError>)
        ensures
            follows(old(self)@, Transition::Resume, now as int, r, final(self)@),
            r is Ok <==> old(self)@.status is Paused,
            r is Ok ==> final(self)@ == old(self)@.resumed(now as int),
            r is Err ==> r == Err::<(), TaskError>(TaskError::InvalidState) && final(self)@ == old(
                self,
            )@,
            final(self)@.valid(),
    {
        proof {
            use_type_invariant(&*self);
        }
        match self.status {
            DownloadStatus::Paused => {
                self.status = DownloadStatus::Downloading;
                self.touch(now);
                Ok(())
            },
            _ => Err(TaskError::InvalidState),
        }
    }
}

} // verus!
