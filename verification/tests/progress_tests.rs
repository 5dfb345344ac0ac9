use auth_service::progress::{
    completion_status, compute_progress, is_complete, next_counter, next_position,
    BlockchainRegistrationProgress, FileHandleTrackProgress, FileProgress, JwtBlacklist,
    MfaRedisService, RedisEmitter,
};
use auth_service::progress::{
    blockchain_completion, file_completion, row_event, CounterEvent, JobCounters,
};
use auth_service::repositories::FileUploadStatus;

#[test]
fn progress_is_capped_and_in_percent() {
    let p = compute_progress(Some(4), Some(3), Some(2), Some(1));
    assert_eq!((p.total, p.current, p.percent, p.success, p.failed), (4, 3, 75, 2, 1));
    let over = compute_progress(Some(4), Some(9), None, None);
    assert_eq!((over.current, over.percent, over.success, over.failed), (4, 100, 0, 0));
    let empty = compute_progress(None, Some(5), None, None);
    assert_eq!((empty.total, empty.current, empty.percent), (0, 5, 0));
    let third = compute_progress(Some(3), Some(1), None, None);
    assert_eq!(third.percent, 33);
    let huge = compute_progress(Some(u64::MAX), Some(u64::MAX - 1), None, None);
    assert!(huge.percent <= 100);
}

#[test]
fn counters_count_up() {
    assert_eq!(next_counter(None), 1);
    assert_eq!(next_counter(Some(41)), 42);
    assert_eq!(next_position(None, 5), 5);
    assert_eq!(next_position(Some(7), 5), 7);
    assert_eq!(next_position(Some(3), 5), 5);
}

#[test]
fn finished_jobs_get_a_final_status() {
    let p = FileProgress { total: 2, current: 2, percent: 100, success: 0, failed: 2 };
    assert_eq!(completion_status(&p, FileUploadStatus::SyncDb), Some(FileUploadStatus::Failed));
    let q = FileProgress { total: 2, current: 2, percent: 100, success: 1, failed: 1 };
    assert_eq!(completion_status(&q, FileUploadStatus::SyncDb), Some(FileUploadStatus::SyncDb));
    let r = FileProgress { total: 2, current: 1, percent: 50, success: 1, failed: 0 };
    assert_eq!(completion_status(&r, FileUploadStatus::SyncDb), None);
    assert!(is_complete(3, 3));
    assert!(!is_complete(0, 0));
}

#[test]
fn store_keys() {
    assert_eq!(FileHandleTrackProgress::total_key("a.csv"), "file_handle_tracker:a.csv");
    assert_eq!(FileHandleTrackProgress::progress_key("a.csv"), "file_handle_progress:a.csv");
    assert_eq!(FileHandleTrackProgress::success_key("a.csv"), "file_handle_success:a.csv");
    assert_eq!(FileHandleTrackProgress::failed_key("a.csv"), "file_handle_failed:a.csv");
    assert_eq!(BlockchainRegistrationProgress::total_key("f1"), "blockchain_registration_tracker:f1");
    assert_eq!(BlockchainRegistrationProgress::progress_key("f1"), "blockchain_registration_progress:f1");
    assert_eq!(BlockchainRegistrationProgress::success_key("f1"), "blockchain_registration_success:f1");
    assert_eq!(BlockchainRegistrationProgress::failed_key("f1"), "blockchain_registration_failed:f1");
    assert_eq!(MfaRedisService::attempts_key("u"), "mfa:attempts:u");
    assert_eq!(MfaRedisService::used_code_key("u", "123456"), "mfa:used_code:u:123456");
    assert_eq!(JwtBlacklist::blacklist_key("u", "t.k.n"), "jwt:blacklist:u:t.k.n");
    assert_eq!(RedisEmitter::user_room("u"), "user:u");
}

fn fresh() -> JobCounters {
    JobCounters { total: Some(9), position: Some(7), success: Some(4), failed: None }
}

#[test]
fn a_registration_run_is_counted_from_a_restart() {
    let mut c = fresh();
    for e in [CounterEvent::SetTotal(4), CounterEvent::Restart] {
        assert!(c.can_apply(&e));
        c.apply(e);
    }
    for ok in [true, false, true] {
        let e = CounterEvent::Registered(ok);
        assert!(c.can_apply(&e));
        c.apply(e);
    }
    let p = c.progress();
    assert_eq!(p, FileProgress { total: 4, current: 3, percent: 75, success: 2, failed: 1 });
    for ok in [true, true] {
        c.apply(CounterEvent::Registered(ok));
    }
    let p = c.progress();
    assert_eq!(p, FileProgress { total: 4, current: 4, percent: 100, success: 4, failed: 1 });
}

#[test]
fn a_file_run_reports_the_highest_created_row() {
    let mut c = fresh();
    for e in [CounterEvent::SetTotal(5), CounterEvent::Reached(0), CounterEvent::ClearOutcomes] {
        c.apply(e);
    }
    for e in [CounterEvent::RowCreated(Some(3)), CounterEvent::RowFailed, CounterEvent::RowCreated(Some(1))] {
        assert!(c.can_apply(&e));
        c.apply(e);
    }
    let p = c.progress();
    assert_eq!(p, FileProgress { total: 5, current: 3, percent: 60, success: 2, failed: 1 });
}

#[test]
fn a_counter_at_its_maximum_cannot_grow() {
    let c = JobCounters { total: None, position: Some(u64::MAX), success: Some(0), failed: Some(0) };
    assert!(!c.can_apply(&CounterEvent::Registered(true)));
    assert!(c.can_apply(&CounterEvent::RowFailed));
    let d = JobCounters { total: None, position: None, success: Some(u64::MAX), failed: None };
    assert!(!d.can_apply(&CounterEvent::RowCreated(Some(1))));
}

#[test]
fn finishing_a_registration_needs_its_upload_record() {
    let running = FileProgress { total: 4, current: 3, percent: 75, success: 3, failed: 0 };
    assert_eq!(blockchain_completion(&running, FileUploadStatus::SyncBlockchain, false), Ok(None));
    let done = FileProgress { total: 4, current: 4, percent: 100, success: 0, failed: 4 };
    assert_eq!(
        blockchain_completion(&done, FileUploadStatus::SyncBlockchain, true),
        Ok(Some(FileUploadStatus::Failed))
    );
    assert_eq!(
        blockchain_completion(&done, FileUploadStatus::SyncBlockchain, false),
        Err("File upload record not found".to_string())
    );
    let ok = FileProgress { total: 4, current: 4, percent: 100, success: 1, failed: 3 };
    assert_eq!(file_completion(&ok, FileUploadStatus::SyncBlockchain, true), Some(FileUploadStatus::SyncBlockchain));
    assert_eq!(file_completion(&ok, FileUploadStatus::SyncBlockchain, false), None);
    assert_eq!(file_completion(&running, FileUploadStatus::SyncBlockchain, true), None);
}

#[test]
fn every_handled_message_is_counted_once() {
    let mut c = JobCounters { total: None, position: None, success: None, failed: None };
    for e in [CounterEvent::SetTotal(4), CounterEvent::Reached(0), CounterEvent::ClearOutcomes] {
        c.apply(e);
    }
    for (created, row) in [(true, Some(2)), (false, Some(1)), (true, None), (false, None)] {
        let e = row_event(created, row);
        assert!(c.can_apply(&e));
        c.apply(e);
    }
    let p = c.progress();
    assert_eq!(p.success + p.failed, 4);
    assert_eq!(p, FileProgress { total: 4, current: 2, percent: 50, success: 2, failed: 2 });
}

#[test]
fn a_row_event_follows_the_outcome() {
    assert!(matches!(row_event(true, Some(7)), CounterEvent::RowCreated(Some(7))));
    assert!(matches!(row_event(true, None), CounterEvent::RowCreated(None)));
    assert!(matches!(row_event(false, Some(7)), CounterEvent::RowFailed));
}
