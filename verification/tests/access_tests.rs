use raf::access::{instant_nanos, next_window, now_nanos, token_from_pairs, token_of_request};
use raf::links::{dashboard_url, scanner_url};
use raf::state::AppState;

fn s(text: &str) -> String {
    text.to_string()
}

#[test]
fn token_from_decoded_pairs() {
    assert_eq!(token_from_pairs(&vec![(s("a"), s("1")), (s("token"), s("abc"))]), Some(s("abc")));
    assert_eq!(token_from_pairs(&vec![(s("a"), s("1"))]), None);
    assert_eq!(token_from_pairs(&vec![]), None);
    // Two tokens are refused, as a record with one `token` field refuses them.
    assert_eq!(token_from_pairs(&vec![(s("token"), s("x")), (s("token"), s("x"))]), None);
}

#[test]
fn token_from_query_string() {
    assert_eq!(token_of_request(None, Some(s("token=abc&page=2"))), Some(s("abc")));
    assert_eq!(token_of_request(None, Some(s("token=a%20b+c"))), Some(s("a b c")));
    assert_eq!(token_of_request(None, Some(s("tok=abc"))), None);
    assert_eq!(token_of_request(None, Some(s("token=1&token=2"))), None);
    assert_eq!(token_of_request(None, None), None);
    // The header comes first.
    assert_eq!(token_of_request(Some(s("h")), Some(s("token=q"))), Some(s("h")));
}

#[test]
fn authorization_needs_the_access_token() {
    let state = AppState::new(s("secret12"));
    assert!(state.is_authorized(Some(s("secret12")), None));
    assert!(state.is_authorized(None, Some(s("token=secret12"))));
    assert!(!state.is_authorized(Some(s("wrong")), Some(s("token=secret12"))));
    assert!(!state.is_authorized(None, Some(s("token=other"))));
    assert!(!state.is_authorized(None, None));
    assert_eq!(state.access_token(), "secret12");
}

#[test]
fn window_steps() {
    let second: i128 = 1_000_000_000;
    assert_eq!(next_window(None, 5), (true, (5, 1)));
    assert_eq!(next_window(Some((0, 10)), second - 1), (true, (0, 11)));
    assert_eq!(next_window(Some((0, 11)), second - 1), (false, (0, 11)));
    assert_eq!(next_window(Some((0, 11)), second), (true, (second, 1)));
    // A clock that went back still counts in the current window.
    assert_eq!(next_window(Some((second, 3)), 0), (true, (second, 4)));
    assert_eq!(next_window(Some((i128::MAX, 0)), i128::MIN), (true, (i128::MAX, 1)));
}

#[test]
fn eleven_requests_pass_per_second() {
    let mut state = AppState::new(s("t"));
    let start: i128 = 1_700_000_000_000_000_000;
    for k in 0..11 {
        assert!(state.admit_request_at(s("10.0.0.2"), start + k));
    }
    assert!(!state.admit_request_at(s("10.0.0.2"), start + 500));
    assert!(!state.admit_request_at(s("10.0.0.2"), start + 999_999_999));
    // Another client has its own window.
    assert!(state.admit_request_at(s("10.0.0.3"), start + 500));
    // A second later the window opens again.
    assert!(state.admit_request_at(s("10.0.0.2"), start + 1_000_000_000));
}

#[test]
fn clock_admission() {
    let mut state = AppState::new(s("t"));
    assert!(state.admit_request(s("::1")));
}

#[test]
fn links() {
    assert_eq!(scanner_url("192.168.1.20", "Ab12"), "https://192.168.1.20:8080/scanner?token=Ab12");
    assert_eq!(dashboard_url("Ab12"), "https://localhost:8080?token=Ab12");
}

#[test]
fn instants_in_nanoseconds() {
    assert_eq!(instant_nanos(2, 5), 2_000_000_005);
    assert_eq!(instant_nanos(-1, 999_999_999), -1);
    assert_eq!(instant_nanos(i64::MIN, 0), (i64::MIN as i128) * 1_000_000_000);
    // The clock reads some time after 2020.
    assert!(now_nanos() > instant_nanos(1_577_836_800, 0));
}

#[test]
fn page_file_heads() {
    let head = raf::pages::asset_head(true, "app.js");
    assert_eq!(head.http_status, 200);
    assert_eq!(head.content_type.as_deref(), Some("text/javascript"));
    let head = raf::pages::asset_head(true, "style.css");
    assert_eq!(head.content_type.as_deref(), Some("text/css"));
    let head = raf::pages::asset_head(true, "blob");
    assert_eq!(head.content_type.as_deref(), Some("application/octet-stream"));
    let head = raf::pages::asset_head(false, "app.js");
    assert_eq!((head.http_status, head.content_type, head.fallback_text.as_deref()), (404, None, Some("Not Found")));
}
