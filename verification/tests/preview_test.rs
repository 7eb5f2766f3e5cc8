use md2paper::preview::{
    build_response_head, counter_text, next_action, report_line, route_request, Route, WatchAction,
    WatchEvent,
};
use md2paper::preview_html;

#[test]
fn test_preview_html_is_not_empty() {
    let html = preview_html();
    assert!(html.contains("<!DOCTYPE html>"));
    assert!(html.contains("/pdf"));
    assert!(html.contains("/gen"));
}

#[test]
fn requests_are_routed_by_path() {
    assert_eq!(route_request("GET /pdf?v=3 HTTP/1.1\r\nHost: x\r\n\r\n"), Route::Pdf);
    assert_eq!(route_request("GET /gen HTTP/1.1\r\n\r\n"), Route::Gen);
    assert_eq!(route_request("GET / HTTP/1.1\r\n\r\n"), Route::Page);
    assert_eq!(route_request(""), Route::Page);
    assert_eq!(route_request("GET\n/pdf"), Route::Page);
}

#[test]
fn response_heads() {
    assert_eq!(
        build_response_head("application/pdf", 1234, true),
        "HTTP/1.1 200 OK\r\nContent-Type: application/pdf\r\nContent-Length: 1234\r\nCache-Control: no-cache\r\n\r\n"
    );
    assert_eq!(
        build_response_head("text/html", 0, false),
        "HTTP/1.1 200 OK\r\nContent-Type: text/html\r\nContent-Length: 0\r\n\r\n"
    );
    assert_eq!(counter_text(42), "42");
}

#[test]
fn watch_decisions() {
    assert!(matches!(next_action(WatchEvent::Changed), WatchAction::Rebuild));
    assert!(matches!(next_action(WatchEvent::Closed), WatchAction::Stop));
    assert!(matches!(next_action(WatchEvent::Idle), WatchAction::Wait));
    match next_action(WatchEvent::Failed("boom".to_string())) {
        WatchAction::Warn(w) => assert_eq!(w, "Watch error: boom"),
        _ => panic!("a watcher error is reported"),
    }
    assert_eq!(report_line(&Ok(())), "[ok] Compiled successfully");
    assert_eq!(report_line(&Err("simulated error".to_string())), "[error] simulated error");
}

#[test]
fn a_build_replaces_the_pdf_and_counts() {
    let mut state = md2paper::preview::PreviewState::new();
    assert_eq!(state.gen, 0);
    state.record_build(b"%PDF-1".to_vec());
    state.record_build(b"%PDF-2".to_vec());
    assert_eq!(state.gen, 2);
    assert_eq!(state.pdf, b"%PDF-2".to_vec());
}
