use squaremap_server::scheduler::dirty::{
    background_follow_up, current_seconds, live_disposition, live_follow_up, live_page_limit, page_concurrency,
    stamp_seconds, DirtyFollowUp,
};
use squaremap_server::scheduler::{RenderDisposition, RunReport};

#[test]
fn background_rows_complete_defer_or_stay() {
    assert_eq!(background_follow_up(RenderDisposition::Installed), DirtyFollowUp::Complete);
    assert_eq!(background_follow_up(RenderDisposition::Missing), DirtyFollowUp::Defer);
    assert_eq!(background_follow_up(RenderDisposition::Stale), DirtyFollowUp::Keep);
    assert_eq!(background_follow_up(RenderDisposition::Cancelled), DirtyFollowUp::Keep);
}

#[test]
fn live_rows_defer_stale_and_failed_renders() {
    assert_eq!(live_follow_up(Some(RenderDisposition::Installed)), DirtyFollowUp::Complete);
    assert_eq!(live_follow_up(Some(RenderDisposition::Missing)), DirtyFollowUp::Defer);
    assert_eq!(live_follow_up(Some(RenderDisposition::Stale)), DirtyFollowUp::Defer);
    assert_eq!(live_follow_up(None), DirtyFollowUp::Defer);
    assert_eq!(live_follow_up(Some(RenderDisposition::Cancelled)), DirtyFollowUp::Keep);
    assert_eq!(live_disposition(None, true), RenderDisposition::Stale);
    assert_eq!(live_disposition(Some(RenderDisposition::Installed), true), RenderDisposition::Installed);
    assert_eq!(live_disposition(Some(RenderDisposition::Installed), false), RenderDisposition::Stale);
    assert_eq!(live_disposition(Some(RenderDisposition::Missing), false), RenderDisposition::Missing);
}

#[test]
fn live_pages_are_small_and_run_two_at_a_time() {
    assert_eq!(live_page_limit(256), 32);
    assert_eq!(live_page_limit(8), 8);
    assert_eq!(page_concurrency(0, true), 1);
    assert_eq!(page_concurrency(1, true), 1);
    assert_eq!(page_concurrency(30, true), 2);
    assert_eq!(page_concurrency(0, false), 1);
    assert_eq!(page_concurrency(30, false), 30);
}

#[test]
fn clock_readings_become_row_stamps() {
    assert_eq!(stamp_seconds(None), 0);
    assert_eq!(stamp_seconds(Some(17)), 17);
    assert_eq!(stamp_seconds(Some(u64::MAX)), i64::MAX);
    assert!(current_seconds() > 0);
}

#[test]
fn reports_count_installed_stale_and_cancelled_renders() {
    let report = RunReport::tally(
        5,
        &vec![
            RenderDisposition::Installed,
            RenderDisposition::Missing,
            RenderDisposition::Stale,
            RenderDisposition::Installed,
        ],
    );
    assert_eq!(report, RunReport { selected: 5, completed: 2, stale: 1, cancelled: false });
    let cancelled = RunReport::tally(1, &vec![RenderDisposition::Cancelled]);
    assert!(cancelled.cancelled);
    let mut total = RunReport::empty();
    total.absorb(&report);
    total.absorb(&cancelled);
    assert_eq!(total, RunReport { selected: 6, completed: 2, stale: 1, cancelled: true });
}
