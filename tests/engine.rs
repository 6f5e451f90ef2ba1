use gift_scanner::checker::GiftChecker;
use gift_scanner::estimate::{count_step, is_client_error, parse_gift_count, parse_numerator, quantity_from_rows, CountReply};
use gift_scanner::ledger::FoundLedger;
use gift_scanner::model::{AppError, GiftResponse};
use gift_scanner::probe::{check_step, classify, contains_text, page_exists, ProbeReply, Step, MAX_RETRIES};
use gift_scanner::scan::{start_id, ProbeOutcome, Scanner, BATCH_SIZE, DEFAULT_START_ID};
use gift_scanner::session::{Session, SessionAction, IDLE_TIMEOUT_SECS};
use gift_scanner::model::GiftStatus;

fn status(name: &str, id: u32) -> GiftStatus {
    GiftStatus { gift_name: name.to_string(), current_id: id, found: true }
}

#[test]
fn valid_names_pass_validation() {
    let c = GiftChecker::new();
    for name in ["cool-gift", "A", "abc123", "-", "Plush-Pepe-2"] {
        assert!(c.validate_gift_name(name).is_ok(), "{}", name);
    }
}

#[test]
fn invalid_names_fail_validation() {
    let c = GiftChecker::new();
    for name in ["cool gift", "a/b", "", "caf\u{e9}", "x_y", "name?"] {
        assert!(matches!(c.validate_gift_name(name), Err(AppError::InvalidGiftName(_))), "{}", name);
    }
}

#[test]
fn first_batch_scenario_publishes_two_events() {
    let mut c = GiftChecker::new();
    let mut scan = Scanner::new("cool-gift", &Ok(50));
    let batch = scan.next_batch();
    assert_eq!(batch, (50..150).collect::<Vec<u32>>());
    let reports: Vec<(u32, ProbeOutcome)> = batch
        .iter()
        .map(|&id| (id, if id == 77 || id == 101 { ProbeOutcome::Exists } else { ProbeOutcome::NotExists }))
        .collect();
    let events = c.record_batch(&mut scan, &reports, 1000);
    assert_eq!(events.len(), 2);
    assert_eq!(events[0].gift_name, "cool-gift");
    assert_eq!(events[0].current_id, 77);
    assert!(events[0].found);
    assert_eq!(events[1].gift_name, "cool-gift");
    assert_eq!(events[1].current_id, 101);
    assert!(events[1].found);
    assert_eq!(scan.frontier(), 101);
    assert_eq!(scan.next_batch(), (101..201).collect::<Vec<u32>>());
}

#[test]
fn reprobing_known_id_publishes_nothing() {
    let mut c = GiftChecker::new();
    let mut scan = Scanner::new("cool-gift", &Ok(50));
    let first = c.record_batch(&mut scan, &vec![(101, ProbeOutcome::Exists)], 10);
    assert_eq!(first.len(), 1);
    let again = c.record_batch(&mut scan, &vec![(101, ProbeOutcome::Exists), (102, ProbeOutcome::Exists)], 20);
    assert_eq!(again.len(), 1);
    assert_eq!(again[0].current_id, 102);
    // a fresh run over the same resource does not announce it either
    let mut rerun = Scanner::new("cool-gift", &Ok(100));
    let third = c.record_batch(&mut rerun, &vec![(101, ProbeOutcome::Exists)], 30);
    assert!(third.is_empty());
}

#[test]
fn frontier_never_moves_back() {
    let mut c = GiftChecker::new();
    let mut scan = Scanner::new("g", &Ok(500));
    c.record_batch(&mut scan, &vec![(10, ProbeOutcome::Exists), (7, ProbeOutcome::Exists)], 1);
    assert_eq!(scan.frontier(), 500);
    c.record_batch(&mut scan, &vec![(520, ProbeOutcome::Exists), (510, ProbeOutcome::Exists)], 2);
    assert_eq!(scan.frontier(), 520);
}

#[test]
fn rate_limited_and_failed_probes_are_dropped() {
    let mut c = GiftChecker::new();
    let mut scan = Scanner::new("g", &Ok(1));
    let reports = vec![
        (3, ProbeOutcome::RateLimited),
        (4, ProbeOutcome::TransientError),
        (5, ProbeOutcome::NotExists),
    ];
    assert!(c.record_batch(&mut scan, &reports, 1).is_empty());
    assert_eq!(scan.frontier(), 1);
    assert!(!c.is_found("g", 3));
    // once the rate limit passes, the ID is announced once
    let later = c.record_batch(&mut scan, &vec![(3, ProbeOutcome::Exists)], 2);
    assert_eq!(later.len(), 1);
    assert!(c.is_found("g", 3));
}

#[test]
fn batch_is_cut_at_top_of_id_range() {
    let scan = Scanner::new("g", &Ok(u32::MAX - 2));
    assert_eq!(scan.next_batch(), vec![u32::MAX - 2, u32::MAX - 1, u32::MAX]);
    let full = Scanner::new("g", &Ok(0));
    assert_eq!(full.next_batch().len(), BATCH_SIZE as usize);
}

#[test]
fn record_reports_new_insertion_once() {
    let mut l = FoundLedger::new();
    assert!(l.record("a", 7, 100));
    assert!(!l.record("a", 7, 150));
    assert!(l.record("b", 7, 150));
    assert!(l.record("a", 8, 160));
    assert_eq!(l.len(), 2);
    assert!(l.contains("a", 7) && l.contains("a", 8) && l.contains("b", 7));
    assert!(!l.contains("b", 8));
}

#[test]
fn sweep_keeps_recent_and_drops_stale_resources() {
    let mut l = FoundLedger::new();
    assert!(l.record("old", 1, 0));
    assert!(l.record("new", 2, 200));
    l.sweep(299);
    assert!(l.contains("old", 1));
    assert!(!l.record("old", 1, 299));
    l.sweep(300);
    assert!(!l.contains("old", 1));
    assert!(l.contains("new", 2));
    assert_eq!(l.len(), 1);
    // after expiry the ID counts as new again
    assert!(l.record("old", 1, 301));
}

#[test]
fn failed_estimate_starts_at_default() {
    let mut outcome = None;
    for attempt in 1..=MAX_RETRIES {
        match count_step(attempt, &CountReply::Transport("timed out".to_string())) {
            Step::Retry => assert!(attempt < MAX_RETRIES),
            Step::Fail(e) => {
                assert_eq!(attempt, MAX_RETRIES);
                outcome = Some(Err(e));
                break;
            }
            Step::Done(_) => panic!("no count was given"),
        }
    }
    let estimate: Result<u32, AppError> = outcome.unwrap();
    assert!(matches!(estimate, Err(AppError::MaxRetriesExceeded(5))));
    assert_eq!(start_id(&estimate), DEFAULT_START_ID);
    assert_eq!(Scanner::new("cool-gift", &estimate).frontier(), 1);
    assert_eq!(start_id(&Err(AppError::RateLimit)), 1);
    assert_eq!(start_id(&Ok(50)), 50);
}

#[test]
fn count_page_is_parsed() {
    let html = "<html><body><table>\
        <tr><th>Model</th><td>Plain</td></tr>\
        <tr><th>Quantity</th><td>12 345/100 000 issued</td></tr>\
        </table></body></html>";
    assert_eq!(parse_gift_count(html), Some(12345));
    assert!(matches!(count_step(1, &CountReply::Page(html.to_string())), Step::Done(12345)));
    assert_eq!(parse_gift_count("<html><body><p>nothing</p></body></html>"), None);
    let unparsable = "<table><tr><th>Quantity</th><td>n/a</td></tr><tr><th>Total Quantity</th><td>7</td></tr></table>";
    assert_eq!(parse_gift_count(unparsable), Some(7));
}

#[test]
fn count_rows_without_label_give_nothing() {
    let rows = vec![
        (Some("Owner".to_string()), Some("42/50".to_string())),
        (Some("Quantity".to_string()), None),
        (None, Some("5/6".to_string())),
    ];
    assert_eq!(quantity_from_rows(&rows), None);
    let rows2 = vec![(Some(" Quantity ".to_string()), Some("3\u{a0}001/10 000".to_string()))];
    assert_eq!(quantity_from_rows(&rows2), Some(3001));
}

#[test]
fn numerator_parsing() {
    assert_eq!(parse_numerator("50/100"), Some(50));
    assert_eq!(parse_numerator("1,234"), Some(1234));
    assert_eq!(parse_numerator("/100"), None);
    assert_eq!(parse_numerator("none"), None);
    assert_eq!(parse_numerator("4294967295/1"), Some(u32::MAX));
    assert_eq!(parse_numerator("4294967296/1"), None);
    assert_eq!(parse_numerator("007"), Some(7));
}

#[test]
fn count_step_decisions() {
    assert!(matches!(count_step(1, &CountReply::Refused(429)), Step::Fail(AppError::RateLimit)));
    assert!(matches!(count_step(1, &CountReply::Refused(404)), Step::Retry));
    assert!(matches!(count_step(5, &CountReply::Refused(404)), Step::Fail(AppError::MaxRetriesExceeded(5))));
    assert!(matches!(count_step(2, &CountReply::Page("<p></p>".to_string())), Step::Retry));
    assert!(matches!(count_step(5, &CountReply::Page("<p></p>".to_string())), Step::Fail(AppError::MaxRetriesExceeded(5))));
    assert!(matches!(count_step(1, &CountReply::BodyError("cut".to_string())), Step::Retry));
    assert!(matches!(count_step(5, &CountReply::BodyError("cut".to_string())), Step::Fail(AppError::MaxRetriesExceeded(5))));
    assert!(matches!(count_step(5, &CountReply::Refused(429)), Step::Fail(AppError::RateLimit)));
    assert!(is_client_error(404) && is_client_error(429) && !is_client_error(200) && !is_client_error(500));
}

#[test]
fn page_classification() {
    assert!(page_exists(Some(6000), "https://t.me/nft/cool-gift-77"));
    assert!(page_exists(None, "https://t.me/nft/cool-gift-77"));
    assert!(!page_exists(Some(5924), "https://t.me/nft/cool-gift-77"));
    assert!(page_exists(Some(5925), "https://t.me/nft/cool-gift-77"));
    assert!(!page_exists(None, "https://telegram.org/"));
    assert!(!page_exists(Some(10000), "https://telegram.org/"));
    assert!(contains_text("abcabd", "abd"));
    assert!(!contains_text("ab", "abc"));
    assert!(contains_text("x", ""));
}

#[test]
fn probe_outcomes() {
    let resp = |status: u16, url: &str| ProbeReply::Response { status, content_length: None, final_url: url.to_string() };
    assert_eq!(classify(&resp(429, "https://t.me/nft/a-1")), ProbeOutcome::RateLimited);
    assert_eq!(classify(&resp(200, "https://t.me/nft/a-1")), ProbeOutcome::Exists);
    assert_eq!(classify(&resp(200, "https://telegram.org")), ProbeOutcome::NotExists);
    assert_eq!(classify(&ProbeReply::Transport("reset".to_string())), ProbeOutcome::TransientError);
}

#[test]
fn check_step_decisions() {
    let limited = ProbeReply::Response { status: 429, content_length: None, final_url: String::new() };
    assert!(matches!(check_step(1, &limited), Step::Retry));
    assert!(matches!(check_step(5, &limited), Step::Fail(AppError::RateLimit)));
    let broken = ProbeReply::Transport("dns".to_string());
    assert!(matches!(check_step(4, &broken), Step::Retry));
    assert!(matches!(check_step(5, &broken), Step::Fail(AppError::MaxRetriesExceeded(5))));
    let found = ProbeReply::Response { status: 200, content_length: Some(9000), final_url: "https://t.me/nft/a-1".to_string() };
    assert!(matches!(check_step(1, &found), Step::Done(true)));
    let missing = ProbeReply::Response { status: 200, content_length: Some(9000), final_url: "https://telegram.org/".to_string() };
    assert!(matches!(check_step(1, &missing), Step::Done(false)));
}

#[test]
fn error_statuses_and_kinds() {
    let cases = [
        (AppError::InvalidGiftName("x".to_string()), 400, "InvalidInput"),
        (AppError::MaxRetriesExceeded(5), 400, "RetriesExhausted"),
        (AppError::RateLimit, 429, "RateLimited"),
        (AppError::Network("x".to_string()), 500, "TransportFailure"),
    ];
    for (e, code, kind) in cases {
        assert_eq!(e.status_code(), code);
        assert_eq!(e.error_type(), kind);
    }
}

#[test]
fn check_response_status_text() {
    let r = GiftResponse::new("cool-gift".to_string(), 1, true);
    assert_eq!((r.gift_name.as_str(), r.id, r.status.as_str()), ("cool-gift", 1, "found"));
    assert_eq!(GiftResponse::new("g".to_string(), 1, false).status, "not_found");
}

#[test]
fn switching_resource_forwards_only_new_one() {
    let mut s = Session::new(0);
    assert!(matches!(s.on_text("alpha", 1), SessionAction::Start { ref resource, cancel_previous: false } if resource == "alpha"));
    assert!(matches!(s.on_text("beta", 1), SessionAction::Start { ref resource, cancel_previous: true } if resource == "beta"));
    assert!(!s.forwards(&status("alpha", 5)));
    assert!(s.forwards(&status("beta", 5)));
    assert_eq!(s.active(), Some("beta"));
}

#[test]
fn invalid_text_keeps_current_run() {
    let mut s = Session::new(0);
    s.on_text("alpha", 1);
    assert!(matches!(s.on_text("bad name", 2), SessionAction::Ignore));
    assert!(s.forwards(&status("alpha", 1)));
    assert!(!s.forwards(&status("bad name", 1)));
}

#[test]
fn silent_session_is_closed() {
    let s = Session::new(1000);
    assert!(matches!(s.on_tick(1030), SessionAction::Ping));
    assert!(matches!(s.on_tick(1000 + IDLE_TIMEOUT_SECS), SessionAction::Ping));
    assert!(matches!(s.on_tick(1000 + IDLE_TIMEOUT_SECS + 1), SessionAction::Close { cancel_scan: false }));
    let mut t = Session::new(0);
    t.on_text("alpha", 10);
    assert!(matches!(t.on_tick(200), SessionAction::Close { cancel_scan: true }));
    t.on_activity(190);
    assert!(matches!(t.on_tick(200), SessionAction::Ping));
    assert!(matches!(t.on_close(), SessionAction::Close { cancel_scan: true }));
}

#[test]
fn engine_tracks_and_sweeps_resources() {
    let mut c = GiftChecker::new();
    let mut a = Scanner::new("a", &Ok(1));
    c.record_batch(&mut a, &vec![(2, ProbeOutcome::Exists)], 0);
    let mut b = Scanner::new("b", &Ok(1));
    c.record_batch(&mut b, &vec![(2, ProbeOutcome::Exists)], 250);
    assert_eq!(c.tracked_resources(), 2);
    c.sweep(300);
    assert_eq!(c.tracked_resources(), 1);
    assert!(!c.is_found("a", 2));
    assert!(c.is_found("b", 2));
    assert_eq!(a.resource(), "a");
}

#[test]
fn concurrent_runs_announce_each_id_once() {
    let mut c = GiftChecker::new();
    let mut first = Scanner::new("g", &Ok(1));
    let mut second = Scanner::new("g", &Ok(1));
    let reports = vec![(4, ProbeOutcome::Exists), (9, ProbeOutcome::Exists)];
    assert_eq!(c.record_batch(&mut first, &reports, 10).len(), 2);
    c.sweep(200);
    assert!(c.record_batch(&mut second, &reports, 250).is_empty());
    c.sweep(309);
    assert!(c.record_batch(&mut first, &reports, 309).is_empty());
    assert_eq!(second.frontier(), 1);
}
