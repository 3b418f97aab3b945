use vmui::refresh::{coalesce_refresh_requests, HintSource, RefreshRequest, RefreshScope};

#[test]
fn coalesce_refresh_requests_dedups_same_window() {
    let requests = vec![
        RefreshRequest::window(10, HintSource::WinEvent, "focus"),
        RefreshRequest::window(10, HintSource::Msaa, "msaa"),
        RefreshRequest::window(20, HintSource::Uia, "uia"),
    ];

    let merged = coalesce_refresh_requests(requests);

    assert_eq!(merged.len(), 2);
    assert_eq!(merged[0].scope, RefreshScope::Window { hwnd: 10 });
    assert_eq!(merged[0].source, HintSource::Msaa);
    assert!(merged[0].reason.contains("focus"));
    assert!(merged[0].reason.contains("msaa"));
    assert_eq!(merged[1].scope, RefreshScope::Window { hwnd: 20 });
}

#[test]
fn desktop_refresh_trumps_window_scope() {
    let requests = vec![
        RefreshRequest::window(10, HintSource::WinEvent, "focus"),
        RefreshRequest::desktop(HintSource::Msaa, "desktop"),
    ];

    let merged = coalesce_refresh_requests(requests);

    assert_eq!(
        merged,
        vec![RefreshRequest::desktop(HintSource::Msaa, "desktop")]
    );
}
