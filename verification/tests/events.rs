use halfcopy::events::{
    per_request_progress, show_provide_progress, ProgressAction, ProgressEvent, ProgressState,
    RequestUpdate, UiEvent,
};
use std::collections::HashSet;

#[test]
fn events_have_their_names() {
    let all = vec![
        (UiEvent::RequestStart(0, 0, 0), "request-start"),
        (UiEvent::RequestProgress(0, 0, 0), "request-progress"),
        (UiEvent::RequestComplete(0, 0), "request-complete"),
        (UiEvent::RequestAbort(0, 0), "request-abort"),
        (UiEvent::ImportStart(0), "import-start"),
        (UiEvent::ImportProgress(0), "import-progress"),
        (UiEvent::CouponStart, "coupon-start"),
        (UiEvent::CouponAvailable(String::new()), "coupon-available"),
        (UiEvent::ConnectionWait, "connection-wait"),
        (UiEvent::ConnectionGot, "connection-got"),
        (UiEvent::Teardown, "teardown"),
        (UiEvent::Connect, "connect"),
        (UiEvent::TotalSize(0), "total-size"),
        (UiEvent::CurrentSize(0), "current-size"),
        (UiEvent::ExportTotal(0), "export-total"),
        (UiEvent::ExportCurrent(0), "export-current"),
    ];
    let mut names = HashSet::new();
    for (event, name) in &all {
        assert_eq!(event.name(), *name);
        assert!(names.insert(event.name()));
    }
}

#[test]
fn updates_of_a_request_are_told() {
    let started = RequestUpdate::Started { size: 9 };
    assert_eq!(per_request_progress(1, 2, started), UiEvent::RequestStart(1, 2, 9));
    let progress = RequestUpdate::Progress { end_offset: 5 };
    assert_eq!(per_request_progress(1, 2, progress), UiEvent::RequestProgress(1, 2, 5));
    let completed = per_request_progress(1, 2, RequestUpdate::Completed);
    assert_eq!(completed, UiEvent::RequestComplete(1, 2));
    let aborted = per_request_progress(1, 2, RequestUpdate::Aborted);
    assert_eq!(aborted, UiEvent::RequestAbort(1, 2));
}

#[test]
fn the_watch_follows_requests_to_their_end() {
    let state = ProgressState::Watching { running: 0 };
    let (state, action) = show_provide_progress(state, ProgressEvent::OtherMessage);
    assert!(matches!(action, ProgressAction::Wait { requests: false }));
    let request = ProgressEvent::GetRequest { connection_id: 3, request_id: 4 };
    let (state, action) = show_provide_progress(state, request);
    assert!(matches!(action, ProgressAction::Follow { connection_id: 3, request_id: 4 }));
    let request = ProgressEvent::GetRequest { connection_id: 3, request_id: 5 };
    let (state, _) = show_provide_progress(state, request);
    assert!(matches!(state, ProgressState::Watching { running: 2 }));
    let (state, action) = show_provide_progress(state, ProgressEvent::OtherMessage);
    assert!(matches!(action, ProgressAction::Wait { requests: true }));
    let (state, action) = show_provide_progress(state, ProgressEvent::Closed);
    assert!(matches!(action, ProgressAction::Drain));
    let (state, action) = show_provide_progress(state, ProgressEvent::Finished);
    assert!(matches!(action, ProgressAction::Drain));
    let (state, action) = show_provide_progress(state, ProgressEvent::Finished);
    assert!(matches!(action, ProgressAction::Done));
    assert!(matches!(state, ProgressState::Ended));
    let (_, action) = show_provide_progress(state, ProgressEvent::OtherMessage);
    assert!(matches!(action, ProgressAction::Done));
}

#[test]
fn the_watch_ends_at_once_when_nothing_is_followed() {
    let request = ProgressEvent::GetRequest { connection_id: 0, request_id: 0 };
    let (state, _) = show_provide_progress(ProgressState::Watching { running: 0 }, request);
    let (state, action) = show_provide_progress(state, ProgressEvent::Finished);
    assert!(matches!(action, ProgressAction::Wait { requests: false }));
    let (state, action) = show_provide_progress(state, ProgressEvent::Closed);
    assert!(matches!(state, ProgressState::Ended));
    assert!(matches!(action, ProgressAction::Done));
}
