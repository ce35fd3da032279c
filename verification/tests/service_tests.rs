use xdownload::config::AppConfig;
use xdownload::error::DownloadError;
use xdownload::service::{create_download_service, outcome_of_exit, DownloadService};
use xdownload::status::DownloadStatus;

fn texts(words: &[&str]) -> Vec<String> {
    words.iter().map(|w| w.to_string()).collect()
}

#[test]
fn new_service_has_no_tasks_and_default_settings() {
    let service = DownloadService::new();
    assert!(service.get_all_tasks().is_empty());
    let config = service.get_config();
    assert_eq!(config.yt_dlp_path, "../bin/yt-dlp.exe");
    assert_eq!(config.download_path, "../downloads");
    assert_eq!(config.max_concurrent_downloads, 3);
    assert!(create_download_service().get_all_tasks().is_empty());
}

#[test]
fn created_task_is_pending_and_named_after_the_time() {
    let mut service = DownloadService::new();
    let id = service.create_download_task("http://example.com/v", Some("137"), 1_700_000_000_123);
    assert_eq!(id, "task_1700000000123");
    assert_eq!(DownloadService::task_id(0), "task_0");
    let task = service.get_task_by_id(&id).unwrap();
    assert_eq!(task.status(), DownloadStatus::Pending);
    assert_eq!(task.url(), "http://example.com/v");
    assert_eq!(task.format_id(), &Some("137".to_string()));
    assert_eq!(task.created_at(), 1_700_000_000);
    assert_eq!(task.progress(), 0);
}

#[test]
fn download_runs_from_start_over_progress_to_completion() {
    let mut service = DownloadService::new();
    let id = service.create_download_task("http://example.com/t1", None, 5_000);
    let call = service.start_download(&id, None, 6).unwrap();
    assert_eq!(call.program, "../bin/yt-dlp.exe");
    assert_eq!(
        call.arguments,
        texts(&["-o", "../downloads/%(title)s.%(ext)s", "--newline", "http://example.com/t1"])
    );
    assert_eq!(service.get_task_by_id(&id).unwrap().status(), DownloadStatus::Downloading);

    assert_eq!(service.handle_output_line(&id, "50% at 1KiB/s", 7), Ok(true));
    let running = service.get_download_progress(&id).unwrap();
    assert_eq!(running.status(), DownloadStatus::Downloading);
    assert_eq!(running.progress(), 5000);
    assert_eq!(running.progress() as f64 / 100.0, 50.0);
    assert_eq!(running.speed(), "1KiB/s");

    assert_eq!(outcome_of_exit(true, 0), Ok(()));
    assert_eq!(service.finish_download(&id, true, 0, 8), Ok(()));
    let done = service.get_task_by_id(&id).unwrap();
    assert_eq!(done.status(), DownloadStatus::Completed);
    assert_eq!(done.progress(), 10_000);
    assert_eq!(done.progress() as f64 / 100.0, 100.0);
    assert_eq!(done.updated_at(), 8);
}

#[test]
fn start_of_unknown_task_is_refused() {
    let mut service = DownloadService::new();
    service.create_download_task("http://example.com/a", None, 1);
    let refused = service.start_download("t1", None, 2);
    assert_eq!(refused.err(), Some(DownloadError::TaskNotFound));
    assert_eq!(service.get_all_tasks().len(), 1);
    assert_eq!(service.get_all_tasks()[0].status(), DownloadStatus::Pending);
}

#[test]
fn second_start_is_refused() {
    let mut service = DownloadService::new();
    let id = service.create_download_task("http://example.com/a", None, 1);
    assert!(service.start_download(&id, None, 2).is_ok());
    assert_eq!(service.start_download(&id, None, 3).err(), Some(DownloadError::InvalidState));
    let task = service.get_task_by_id(&id).unwrap();
    assert_eq!(task.status(), DownloadStatus::Downloading);
    assert_eq!(task.updated_at(), 2);
}

#[test]
fn start_takes_the_format_of_the_call_or_else_of_the_task() {
    let config = AppConfig {
        yt_dlp_path: "/usr/bin/yt-dlp".to_string(),
        download_path: "/tmp/out".to_string(),
        max_concurrent_downloads: 1,
    };
    let mut service = DownloadService::with_config(config);
    let own = service.create_download_task("http://example.com/a", Some("18"), 1);
    let call = service.start_download(&own, None, 2).unwrap();
    assert_eq!(call.program, "/usr/bin/yt-dlp");
    assert_eq!(
        call.arguments,
        texts(&["-o", "/tmp/out/%(title)s.%(ext)s", "--newline", "-f", "18", "http://example.com/a"])
    );
    let other = service.create_download_task("http://example.com/b", Some("18"), 2);
    let call = service.start_download(&other, Some("22"), 3).unwrap();
    assert_eq!(
        call.arguments,
        texts(&["-o", "/tmp/out/%(title)s.%(ext)s", "--newline", "-f", "22", "http://example.com/b"])
    );
}

#[test]
fn failed_exit_is_recorded_with_the_exit_code() {
    let mut service = DownloadService::new();
    let id = service.create_download_task("http://example.com/a", None, 1);
    service.start_download(&id, None, 2).unwrap();
    assert_eq!(outcome_of_exit(false, 3), Err(DownloadError::ExitFailure(3)));
    assert_eq!(service.finish_download(&id, false, 3, 4), Ok(()));
    let task = service.get_task_by_id(&id).unwrap();
    assert_eq!(task.status(), DownloadStatus::Failed);
    assert_eq!(task.error(), &Some("Download failed with exit code 3".to_string()));
    assert_eq!(DownloadService::failure_message(-1), "Download failed with exit code -1");
    assert_eq!(
        DownloadService::failure_message(i32::MIN),
        "Download failed with exit code -2147483648"
    );
}

#[test]
fn cancel_after_successful_exit_keeps_the_task_completed() {
    let mut service = DownloadService::new();
    let id = service.create_download_task("http://example.com/a", None, 1);
    service.start_download(&id, None, 2).unwrap();
    service.finish_download(&id, true, 0, 3).unwrap();
    assert_eq!(service.cancel_download(&id, 4), Err(DownloadError::InvalidState));
    let task = service.get_task_by_id(&id).unwrap();
    assert_eq!(task.status(), DownloadStatus::Completed);
    assert_eq!(task.progress(), 10_000);
    assert_eq!(task.updated_at(), 3);
}

#[test]
fn exit_after_cancel_keeps_the_task_cancelled() {
    let mut service = DownloadService::new();
    let id = service.create_download_task("http://example.com/a", None, 1);
    service.start_download(&id, None, 2).unwrap();
    assert_eq!(service.cancel_download(&id, 3), Ok(()));
    assert_eq!(service.finish_download(&id, false, 137, 4), Err(DownloadError::InvalidState));
    assert_eq!(service.handle_output_line(&id, "70% at 1KiB/s", 4), Err(DownloadError::InvalidState));
    let task = service.get_task_by_id(&id).unwrap();
    assert_eq!(task.status(), DownloadStatus::Cancelled);
    assert_eq!(task.error(), &None);
}

#[test]
fn operations_on_unknown_tasks_report_task_not_found() {
    let mut service = DownloadService::new();
    assert_eq!(service.cancel_download("t1", 1), Err(DownloadError::TaskNotFound));
    assert_eq!(service.pause_download("t1", 1), Err(DownloadError::TaskNotFound));
    assert_eq!(service.resume_download("t1", 1), Err(DownloadError::TaskNotFound));
    assert_eq!(service.delete_download("t1"), Err(DownloadError::TaskNotFound));
    assert_eq!(service.finish_download("t1", true, 0, 1), Err(DownloadError::TaskNotFound));
    assert_eq!(
        service.fail_download("t1", "no binary".to_string(), 1),
        Err(DownloadError::TaskNotFound)
    );
    assert_eq!(
        service.update_progress("t1", 5, "x".to_string(), 1),
        Err(DownloadError::TaskNotFound)
    );
    assert_eq!(service.handle_output_line("t1", "5% at x", 1), Err(DownloadError::TaskNotFound));
    assert_eq!(service.handle_output_line("t1", "no progress", 1), Ok(false));
    assert!(service.get_task_by_id("t1").is_none());
    assert!(service.get_all_tasks().is_empty());
}

#[test]
fn line_without_progress_changes_nothing() {
    let mut service = DownloadService::new();
    let id = service.create_download_task("http://example.com/a", None, 1);
    service.start_download(&id, None, 2).unwrap();
    assert_eq!(service.handle_output_line(&id, "[download] Destination: a.mp4", 9), Ok(false));
    let task = service.get_task_by_id(&id).unwrap();
    assert_eq!(task.progress(), 0);
    assert_eq!(task.updated_at(), 2);
}

#[test]
fn line_without_speed_reports_the_idle_speed() {
    let mut service = DownloadService::new();
    let id = service.create_download_task("http://example.com/a", None, 1);
    assert_eq!(service.handle_output_line(&id, "[download] 100% of 3MiB", 9), Ok(true));
    let task = service.get_task_by_id(&id).unwrap();
    assert_eq!(task.status(), DownloadStatus::Downloading);
    assert_eq!(task.progress(), 10_000);
    assert_eq!(task.speed(), "0 KB/s");
}

#[test]
fn progress_above_one_hundred_percent_is_refused_by_the_service() {
    let mut service = DownloadService::new();
    let id = service.create_download_task("http://example.com/a", None, 1);
    assert_eq!(
        service.update_progress(&id, 10_001, "x".to_string(), 2),
        Err(DownloadError::ProgressOutOfRange)
    );
    assert_eq!(service.get_task_by_id(&id).unwrap().progress(), 0);
}

#[test]
fn spawn_failure_fails_the_task_with_the_message() {
    let mut service = DownloadService::new();
    let id = service.create_download_task("http://example.com/a", None, 1);
    service.start_download(&id, None, 2).unwrap();
    assert_eq!(service.fail_download(&id, "Failed to start yt-dlp".to_string(), 3), Ok(()));
    let task = service.get_task_by_id(&id).unwrap();
    assert_eq!(task.status(), DownloadStatus::Failed);
    assert_eq!(task.error(), &Some("Failed to start yt-dlp".to_string()));
}

#[test]
fn pause_and_resume_through_the_service() {
    let mut service = DownloadService::new();
    let id = service.create_download_task("http://example.com/a", None, 1);
    assert_eq!(service.resume_download(&id, 2), Err(DownloadError::InvalidState));
    assert_eq!(service.pause_download(&id, 2), Ok(()));
    assert_eq!(service.get_task_by_id(&id).unwrap().status(), DownloadStatus::Paused);
    assert_eq!(service.pause_download(&id, 3), Err(DownloadError::InvalidState));
    assert_eq!(service.resume_download(&id, 4), Ok(()));
    assert_eq!(service.get_task_by_id(&id).unwrap().status(), DownloadStatus::Downloading);
}

#[test]
fn delete_and_batch_delete() {
    let mut service = DownloadService::new();
    let a = service.create_download_task("http://example.com/a", None, 1);
    let b = service.create_download_task("http://example.com/b", None, 2);
    let c = service.create_download_task("http://example.com/c", None, 3);
    assert_eq!(service.delete_download(&b), Ok(()));
    assert_eq!(service.delete_download(&b), Err(DownloadError::TaskNotFound));
    assert_eq!(service.get_all_tasks().len(), 2);
    let ids = vec![a.clone(), "task_unknown".to_string(), a.clone()];
    assert_eq!(service.batch_delete_downloads(&ids), Ok(()));
    let left = service.get_all_tasks();
    assert_eq!(left.len(), 1);
    assert_eq!(left[0].id(), &c);
    assert_eq!(service.batch_delete_downloads(&Vec::new()), Ok(()));
    assert_eq!(service.get_all_tasks().len(), 1);
}

#[test]
fn stats_and_cleanup_of_completed_tasks() {
    let mut service = DownloadService::new();
    let a = service.create_download_task("http://example.com/a", None, 1);
    let b = service.create_download_task("http://example.com/b", None, 2);
    let c = service.create_download_task("http://example.com/c", None, 3);
    let d = service.create_download_task("http://example.com/d", None, 4);
    let _e = service.create_download_task("http://example.com/e", None, 5);
    service.finish_download(&a, true, 0, 6).unwrap();
    service.finish_download(&b, false, 1, 6).unwrap();
    service.start_download(&c, None, 6).unwrap();
    service.pause_download(&d, 6).unwrap();
    let stats = service.get_download_stats();
    assert_eq!(stats.total, 5);
    assert_eq!(stats.completed, 1);
    assert_eq!(stats.failed, 1);
    assert_eq!(stats.downloading, 1);
    assert_eq!(stats.paused, 1);
    assert_eq!(stats.pending, 1);
    assert_eq!(stats.cancelled, 0);
    assert_eq!(service.cleanup_completed_tasks(), Ok(()));
    let left: Vec<String> = service.get_all_tasks().iter().map(|t| t.id().clone()).collect();
    assert_eq!(left, vec![b, c, d, "task_5".to_string()]);
    assert_eq!(service.get_download_stats().completed, 0);
    assert_eq!(service.get_download_stats().total, 4);
}

#[test]
fn tasks_created_in_the_same_millisecond_get_different_ids() {
    let mut service = DownloadService::new();
    let first = service.create_download_task("http://example.com/a", None, 42);
    let second = service.create_download_task("http://example.com/b", None, 42);
    let third = service.create_download_task("http://example.com/c", None, 42);
    let fourth = service.create_download_task("http://example.com/d", None, 43);
    assert_eq!(first, "task_42");
    assert_eq!(second, "task_43");
    assert_eq!(third, "task_44");
    assert_eq!(fourth, "task_45");
    assert_eq!(service.get_all_tasks().len(), 4);
    assert_eq!(service.get_task_by_id(&first).unwrap().url(), "http://example.com/a");
    assert_eq!(service.get_task_by_id(&second).unwrap().url(), "http://example.com/b");
    assert_eq!(service.get_task_by_id(&third).unwrap().url(), "http://example.com/c");
    assert_eq!(service.get_task_by_id(&fourth).unwrap().url(), "http://example.com/d");
    assert_eq!(service.get_task_by_id(&second).unwrap().created_at(), 0);
}

#[test]
fn new_task_leaves_the_stored_tasks_as_they_are() {
    let mut service = DownloadService::new();
    let first = service.create_download_task("http://example.com/a", Some("18"), 1_000);
    service.update_progress(&first, 4200, "1KiB/s".to_string(), 2).unwrap();
    assert_eq!(service.free_task_id(1_000), "task_1001");
    assert_eq!(service.free_task_id(999), "task_999");
    let second = service.create_download_task("http://example.com/b", None, 1_000);
    assert_ne!(first, second);
    let kept = service.get_task_by_id(&first).unwrap();
    assert_eq!(kept.url(), "http://example.com/a");
    assert_eq!(kept.progress(), 4200);
    assert_eq!(kept.status(), DownloadStatus::Downloading);
    let ids: Vec<String> = service.get_all_tasks().iter().map(|t| t.id().clone()).collect();
    assert_eq!(ids, vec![first, second]);
    assert_eq!(service.free_task_id(u64::MAX), "task_18446744073709551615");
    let last = service.create_download_task("http://example.com/c", None, u64::MAX);
    let beyond = service.create_download_task("http://example.com/d", None, u64::MAX);
    assert_eq!(last, "task_18446744073709551615");
    assert_eq!(beyond, "task_18446744073709551616");
}

#[test]
fn settings_can_be_replaced() {
    let mut service = DownloadService::new();
    let id = service.create_download_task("http://example.com/a", None, 1);
    let config = AppConfig {
        yt_dlp_path: "yt-dlp".to_string(),
        download_path: "out".to_string(),
        max_concurrent_downloads: 8,
    };
    service.save_config(&config);
    assert_eq!(service.get_config().yt_dlp_path, "yt-dlp");
    assert_eq!(service.get_config().max_concurrent_downloads, 8);
    let call = service.start_download(&id, None, 2).unwrap();
    assert_eq!(call.program, "yt-dlp");
    assert_eq!(call.arguments[1], "out/%(title)s.%(ext)s");
}

#[test]
fn batch_starts_one_task_for_each_format() {
    let mut service = DownloadService::new();
    let formats = texts(&["18", "22"]);
    let (batch_id, started) = service.start_batch_download("http://example.com/v", &formats, 9_000);
    assert_eq!(batch_id, "batch_9000");
    assert_eq!(started.len(), 2);
    assert_eq!(started[0].task_id, "task_batch_9000_18");
    assert_eq!(started[1].task_id, "task_batch_9000_22");
    assert_eq!(started[1].call.program, "../bin/yt-dlp.exe");
    assert_eq!(
        started[1].call.arguments,
        texts(&[
            "-o",
            "../downloads/%(title)s.%(ext)s",
            "--newline",
            "-f",
            "22",
            "http://example.com/v"
        ])
    );
    let tasks = service.get_all_tasks();
    assert_eq!(tasks.len(), 2);
    assert_eq!(tasks[0].id(), "task_batch_9000_18");
    assert_eq!(tasks[1].id(), "task_batch_9000_22");
    assert_eq!(tasks[0].status(), DownloadStatus::Downloading);
    assert_eq!(tasks[0].format_id(), &Some("18".to_string()));
    assert_eq!(tasks[0].created_at(), 9);
    assert_eq!(service.get_batch_progress(&batch_id), Some((DownloadStatus::Downloading, 0)));
}

#[test]
fn format_named_twice_gives_one_task_and_one_call() {
    let mut service = DownloadService::new();
    let formats = texts(&["18", "22", "18", "18", "137", "22"]);
    let (batch_id, started) = service.start_batch_download("http://example.com/v", &formats, 5);
    let ids: Vec<String> = started.iter().map(|s| s.task_id.clone()).collect();
    assert_eq!(ids, vec!["task_batch_5_18", "task_batch_5_22", "task_batch_5_137"]);
    let stored: Vec<String> = service.get_all_tasks().iter().map(|t| t.id().clone()).collect();
    assert_eq!(stored, ids);
    assert_eq!(started[2].call.arguments[4], "137");
    service.finish_download("task_batch_5_18", true, 0, 6).unwrap();
    assert_eq!(service.get_batch_progress(&batch_id), Some((DownloadStatus::Downloading, 3333)));
}

#[test]
fn batches_created_in_the_same_millisecond_get_different_ids() {
    let mut service = DownloadService::new();
    let formats = texts(&["18"]);
    let (first, _) = service.start_batch_download("http://example.com/a", &formats, 7);
    service.update_progress("task_batch_7_18", 900, "1KiB/s".to_string(), 1).unwrap();
    let (second, started) = service.start_batch_download("http://example.com/b", &formats, 7);
    let third = service.create_batch_download_task("http://example.com/c", &formats, 7);
    assert_eq!(first, "batch_7");
    assert_eq!(second, "batch_8");
    assert_eq!(third, "batch_9");
    assert_eq!(started[0].task_id, "task_batch_8_18");
    let kept = service.get_task_by_id("task_batch_7_18").unwrap();
    assert_eq!(kept.url(), "http://example.com/a");
    assert_eq!(kept.progress(), 900);
    assert_eq!(service.get_task_by_id("task_batch_8_18").unwrap().url(), "http://example.com/b");
    assert_eq!(service.get_all_tasks().len(), 2);
    assert_eq!(service.get_batch_progress(&first), Some((DownloadStatus::Downloading, 900)));
    assert_eq!(service.get_batch_progress(&third), Some((DownloadStatus::Pending, 0)));
}

#[test]
fn batch_id_is_free_of_batches_and_of_tasks_that_belong_to_it() {
    let mut service = DownloadService::new();
    assert_eq!(service.free_batch_id(3), "batch_3");
    let created = service.create_batch_download_task("http://example.com/a", &texts(&["x"]), 3);
    assert_eq!(created, "batch_3");
    assert_eq!(service.free_batch_id(3), "batch_4");
    assert_eq!(service.free_batch_id(2), "batch_2");
    let (started, _) = service.start_batch_download("http://example.com/b", &texts(&["y"]), 30);
    assert_eq!(started, "batch_30");
    assert_eq!(service.free_batch_id(30), "batch_31");
    assert_eq!(service.free_batch_id(3), "batch_4");
    assert_eq!(service.free_batch_id(300), "batch_300");
    let own = service.create_download_task("http://example.com/c", None, 30);
    assert_eq!(own, "task_30");
    assert_eq!(service.get_all_tasks().len(), 2);
}

#[test]
fn batch_status_and_progress_follow_the_tasks() {
    let mut service = DownloadService::new();
    let formats = texts(&["18", "22"]);
    let (batch_id, _) = service.start_batch_download("http://example.com/v", &formats, 9_000);
    service.update_progress("task_batch_9000_18", 5000, "1KiB/s".to_string(), 10).unwrap();
    service.update_progress("task_batch_9000_22", 2501, "1KiB/s".to_string(), 10).unwrap();
    assert_eq!(service.get_batch_progress(&batch_id), Some((DownloadStatus::Downloading, 3750)));
    service.finish_download("task_batch_9000_18", true, 0, 11).unwrap();
    assert_eq!(service.get_batch_progress(&batch_id), Some((DownloadStatus::Downloading, 6250)));
    service.finish_download("task_batch_9000_22", true, 0, 12).unwrap();
    assert_eq!(service.get_batch_progress(&batch_id), Some((DownloadStatus::Completed, 10_000)));
    assert_eq!(service.get_batch_progress("batch_1"), None);
}

#[test]
fn batch_with_a_failed_task_is_failed_once_all_have_ended() {
    let mut service = DownloadService::new();
    let formats = texts(&["a", "b", "c"]);
    let (batch_id, _) = service.start_batch_download("http://example.com/v", &formats, 1_000);
    service.finish_download("task_batch_1000_a", true, 0, 2).unwrap();
    service.finish_download("task_batch_1000_b", false, 1, 2).unwrap();
    assert_eq!(
        service.get_batch_progress(&batch_id).map(|s| s.0),
        Some(DownloadStatus::Downloading)
    );
    service.cancel_download("task_batch_1000_c", 3).unwrap();
    assert_eq!(service.get_batch_progress(&batch_id), Some((DownloadStatus::Failed, 3333)));
}

#[test]
fn created_batch_has_no_tasks_yet() {
    let mut service = DownloadService::new();
    let formats = texts(&["18"]);
    let batch_id = service.create_batch_download_task("http://example.com/v", &formats, 77);
    assert_eq!(batch_id, "batch_77");
    assert!(service.get_all_tasks().is_empty());
    assert_eq!(service.get_batch_progress(&batch_id), Some((DownloadStatus::Pending, 0)));
}

#[test]
fn prepared_download_changes_nothing() {
    let mut service = DownloadService::new();
    let id = service.create_download_task("http://example.com/a", Some("18"), 1_000);
    let call = service.prepare_download(&id, None).unwrap();
    assert_eq!(call.program, "../bin/yt-dlp.exe");
    assert_eq!(
        call.arguments,
        texts(&["-o", "../downloads/%(title)s.%(ext)s", "--newline", "-f", "18", "http://example.com/a"])
    );
    let task = service.get_task_by_id(&id).unwrap();
    assert_eq!(task.status(), DownloadStatus::Pending);
    assert_eq!(task.updated_at(), 1);
    let again = service.prepare_download(&id, Some("22")).unwrap();
    assert_eq!(again.arguments[4], "22");
    assert_eq!(service.prepare_download("t1", None).err(), Some(DownloadError::TaskNotFound));
    service.start_download(&id, None, 2).unwrap();
    assert_eq!(service.prepare_download(&id, None).err(), Some(DownloadError::InvalidState));
}

#[test]
fn failed_launch_is_reported_at_once_and_leaves_the_task_pending() {
    let mut service = DownloadService::new();
    let id = service.create_download_task("http://example.com/a", None, 1_000);
    assert_eq!(service.record_launch(&id, false, 5), Err(DownloadError::SpawnFailure));
    let task = service.get_task_by_id(&id).unwrap();
    assert_eq!(task.status(), DownloadStatus::Pending);
    assert_eq!(task.error(), &None);
    assert_eq!(task.updated_at(), 1);
    assert_eq!(service.record_launch("t1", false, 5), Err(DownloadError::SpawnFailure));
    assert_eq!(service.record_launch("t1", true, 5), Err(DownloadError::TaskNotFound));
    assert_eq!(service.record_launch(&id, true, 6), Ok(()));
    assert_eq!(service.get_task_by_id(&id).unwrap().status(), DownloadStatus::Downloading);
    assert_eq!(service.record_launch(&id, true, 7), Err(DownloadError::InvalidState));
}
