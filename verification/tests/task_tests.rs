use xdownload::error::TaskError;
use xdownload::status::DownloadStatus;
use xdownload::task::{DownloadTask, FULL_PROGRESS};

fn pending(now: i64) -> DownloadTask {
    DownloadTask::new("t1".to_string(), "http://example.com/v".to_string(), None, now)
}

#[test]
fn new_task_is_pending_and_idle() {
    let task = DownloadTask::new(
        "t1".to_string(),
        "http://example.com/v".to_string(),
        Some("137".to_string()),
        1000,
    );
    assert_eq!(task.id(), "t1");
    assert_eq!(task.url(), "http://example.com/v");
    assert_eq!(task.format_id(), &Some("137".to_string()));
    assert_eq!(task.status(), DownloadStatus::Pending);
    assert_eq!(task.progress(), 0);
    assert_eq!(task.speed(), "0 KB/s");
    assert_eq!(task.error(), &None);
    assert_eq!(task.created_at(), 1000);
    assert_eq!(task.updated_at(), 1000);
}

#[test]
fn full_progress_is_one_hundred_percent() {
    assert_eq!(FULL_PROGRESS, 10_000);
    assert_eq!(FULL_PROGRESS as f64 / 100.0, 100.0);
}

#[test]
fn start_leads_from_pending_to_downloading_only() {
    let mut task = pending(10);
    assert_eq!(task.start(11), Ok(()));
    assert_eq!(task.status(), DownloadStatus::Downloading);
    assert_eq!(task.updated_at(), 11);
    assert_eq!(task.start(12), Err(TaskError::InvalidState));
    assert_eq!(task.status(), DownloadStatus::Downloading);
    assert_eq!(task.updated_at(), 11);
}

#[test]
fn progress_report_makes_a_pending_task_downloading() {
    let mut task = pending(10);
    assert_eq!(task.update_progress(4200, "512KiB/s".to_string(), 12), Ok(()));
    assert_eq!(task.status(), DownloadStatus::Downloading);
    assert_eq!(task.progress(), 4200);
    assert_eq!(task.speed(), "512KiB/s");
    assert_eq!(task.updated_at(), 12);
    assert_eq!(task.created_at(), 10);
}

#[test]
fn progress_above_one_hundred_percent_is_refused() {
    let mut task = pending(10);
    assert_eq!(
        task.update_progress(10_001, "1KiB/s".to_string(), 12),
        Err(TaskError::ProgressOutOfRange)
    );
    assert_eq!(task.status(), DownloadStatus::Pending);
    assert_eq!(task.progress(), 0);
    assert_eq!(task.speed(), "0 KB/s");
    assert_eq!(task.updated_at(), 10);
    assert_eq!(task.update_progress(10_000, "1KiB/s".to_string(), 12), Ok(()));
    assert_eq!(task.status(), DownloadStatus::Downloading);
    assert_eq!(task.progress(), 10_000);
}

#[test]
fn completed_task_has_full_progress() {
    let mut task = pending(10);
    task.start(11).unwrap();
    task.update_progress(5000, "1KiB/s".to_string(), 12).unwrap();
    assert_eq!(task.mark_completed(13), Ok(()));
    assert_eq!(task.status(), DownloadStatus::Completed);
    assert_eq!(task.progress(), FULL_PROGRESS);
    assert_eq!(task.speed(), "1KiB/s");
    assert_eq!(task.updated_at(), 13);
}

#[test]
fn complete_sets_the_speed_back_to_idle() {
    let mut task = pending(10);
    task.update_progress(5000, "1KiB/s".to_string(), 12).unwrap();
    assert_eq!(task.complete(13), Ok(()));
    assert_eq!(task.status(), DownloadStatus::Completed);
    assert_eq!(task.progress(), FULL_PROGRESS);
    assert_eq!(task.speed(), "0 KB/s");
}

#[test]
fn failed_task_carries_its_error() {
    let mut task = pending(10);
    task.start(11).unwrap();
    assert_eq!(task.mark_failed("no such file".to_string(), 12), Ok(()));
    assert_eq!(task.status(), DownloadStatus::Failed);
    assert_eq!(task.error(), &Some("no such file".to_string()));
    assert!(task.error().is_some());
}

#[test]
fn cancel_after_completion_changes_nothing() {
    let mut task = pending(10);
    task.start(11).unwrap();
    task.mark_completed(12).unwrap();
    assert_eq!(task.cancel(13), Err(TaskError::InvalidState));
    assert_eq!(task.status(), DownloadStatus::Completed);
    assert_eq!(task.progress(), FULL_PROGRESS);
    assert_eq!(task.updated_at(), 12);
}

#[test]
fn cancel_after_failure_changes_nothing() {
    let mut task = pending(10);
    task.mark_failed("broken".to_string(), 11).unwrap();
    assert_eq!(task.cancel(12), Err(TaskError::InvalidState));
    assert_eq!(task.status(), DownloadStatus::Failed);
    assert_eq!(task.error(), &Some("broken".to_string()));
}

#[test]
fn failure_after_cancellation_changes_nothing() {
    let mut task = pending(10);
    task.start(11).unwrap();
    assert_eq!(task.cancel(12), Ok(()));
    assert_eq!(task.status(), DownloadStatus::Cancelled);
    assert_eq!(task.speed(), "0 KB/s");
    assert_eq!(task.mark_failed("exit 1".to_string(), 13), Err(TaskError::InvalidState));
    assert_eq!(task.mark_completed(13), Err(TaskError::InvalidState));
    assert_eq!(task.complete(13), Err(TaskError::InvalidState));
    assert_eq!(task.update_progress(10, "x".to_string(), 13), Err(TaskError::InvalidState));
    assert_eq!(task.pause(13), Err(TaskError::InvalidState));
    assert_eq!(task.resume(13), Err(TaskError::InvalidState));
    assert_eq!(task.start(13), Err(TaskError::InvalidState));
    assert_eq!(task.cancel(13), Err(TaskError::InvalidState));
    assert_eq!(task.status(), DownloadStatus::Cancelled);
    assert_eq!(task.error(), &None);
    assert_eq!(task.updated_at(), 12);
}

#[test]
fn pause_and_resume() {
    let mut task = pending(10);
    assert_eq!(task.resume(11), Err(TaskError::InvalidState));
    task.update_progress(100, "9KiB/s".to_string(), 11).unwrap();
    assert_eq!(task.pause(12), Ok(()));
    assert_eq!(task.status(), DownloadStatus::Paused);
    assert_eq!(task.speed(), "0 KB/s");
    assert_eq!(task.progress(), 100);
    assert_eq!(task.pause(13), Err(TaskError::InvalidState));
    assert_eq!(task.update_progress(200, "9KiB/s".to_string(), 13), Err(TaskError::InvalidState));
    assert_eq!(task.progress(), 100);
    assert_eq!(task.resume(14), Ok(()));
    assert_eq!(task.status(), DownloadStatus::Downloading);
    assert_eq!(task.updated_at(), 14);
}

#[test]
fn paused_task_can_end() {
    let mut task = pending(10);
    task.pause(11).unwrap();
    assert_eq!(task.mark_completed(12), Ok(()));
    assert_eq!(task.status(), DownloadStatus::Completed);
    assert_eq!(task.progress(), FULL_PROGRESS);
}

#[test]
fn modification_time_never_goes_back() {
    let mut task = pending(100);
    task.start(50).unwrap();
    assert_eq!(task.updated_at(), 100);
    task.update_progress(1, "x".to_string(), 120).unwrap();
    assert_eq!(task.updated_at(), 120);
    task.update_progress(2, "x".to_string(), 110).unwrap();
    assert_eq!(task.updated_at(), 120);
    task.mark_completed(-5).unwrap();
    assert_eq!(task.updated_at(), 120);
    assert_eq!(task.created_at(), 100);
    assert!(task.updated_at() >= task.created_at());
}

#[test]
fn copy_of_a_task_equals_it() {
    let mut task = pending(10);
    task.update_progress(4200, "512KiB/s".to_string(), 12).unwrap();
    let copy = task.clone();
    assert_eq!(copy.id(), task.id());
    assert_eq!(copy.url(), task.url());
    assert_eq!(copy.status(), task.status());
    assert_eq!(copy.progress(), task.progress());
    assert_eq!(copy.speed(), task.speed());
    assert_eq!(copy.updated_at(), task.updated_at());
}

#[test]
fn status_kinds() {
    assert!(DownloadStatus::Completed.terminal());
    assert!(DownloadStatus::Failed.terminal());
    assert!(DownloadStatus::Cancelled.terminal());
    assert!(!DownloadStatus::Pending.terminal());
    assert!(!DownloadStatus::Downloading.terminal());
    assert!(!DownloadStatus::Paused.terminal());
    assert!(DownloadStatus::Pending.running());
    assert!(DownloadStatus::Downloading.running());
    assert!(!DownloadStatus::Paused.running());
    assert!(!DownloadStatus::Completed.running());
}
