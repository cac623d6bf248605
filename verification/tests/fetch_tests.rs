use esp_live::error::{cache_write_failed_status, fetch_failed_status, AppError};
use esp_live::fetch::{
    backoff_delay, next_fetch_step, server_error_status, FetchStep, FETCH_ATTEMPTS, MAX_BACKOFF_ATTEMPT,
};

#[test]
fn backoff_doubles_from_300ms() {
    assert_eq!(backoff_delay(1), 300);
    assert_eq!(backoff_delay(2), 600);
    assert_eq!(backoff_delay(3), 1200);
    assert_eq!(MAX_BACKOFF_ATTEMPT, 56);
    assert_eq!(backoff_delay(56), 300 * (1u64 << 55));
    assert!(300u64.checked_mul(1u64 << 56).is_none());
    for a in 1..56u32 {
        assert_eq!(backoff_delay(a + 1), 2 * backoff_delay(a));
        assert_eq!(backoff_delay(a), 300 * 2u64.pow(a - 1));
    }
}

#[test]
fn fetch_steps() {
    assert_eq!(FETCH_ATTEMPTS, 3);
    assert_eq!(next_fetch_step(0, 3, None), FetchStep::Attempt { wait_millis: None });
    assert_eq!(next_fetch_step(1, 3, Some(false)), FetchStep::Attempt { wait_millis: Some(300) });
    assert_eq!(next_fetch_step(2, 3, Some(false)), FetchStep::Attempt { wait_millis: Some(600) });
    assert_eq!(next_fetch_step(3, 3, Some(false)), FetchStep::GiveUp);
    assert_eq!(next_fetch_step(0, 0, None), FetchStep::GiveUp);
}

#[test]
fn fetch_stops_at_first_success() {
    assert_eq!(next_fetch_step(1, 3, Some(true)), FetchStep::Done);
    assert_eq!(next_fetch_step(2, 3, Some(true)), FetchStep::Done);
    assert_eq!(next_fetch_step(3, 3, Some(true)), FetchStep::Done);
}

#[test]
fn fetch_schedule_of_three_failures() {
    let mut waits = Vec::new();
    let mut attempt: u32 = 0;
    let mut last_ok: Option<bool> = None;
    loop {
        match next_fetch_step(attempt, FETCH_ATTEMPTS, last_ok) {
            FetchStep::Attempt { wait_millis } => {
                waits.push(wait_millis);
                last_ok = Some(false);
                attempt += 1;
            }
            FetchStep::Done => panic!("no try succeeded"),
            FetchStep::GiveUp => break,
        }
    }
    assert_eq!(waits, vec![None, Some(300), Some(600)]);
}

#[test]
fn status_codes() {
    assert_eq!(server_error_status(200), None);
    assert_eq!(server_error_status(204), None);
    assert_eq!(server_error_status(299), None);
    assert_eq!(server_error_status(300), Some(300));
    assert_eq!(server_error_status(199), Some(199));
    assert_eq!(server_error_status(404), Some(404));
    assert_eq!(server_error_status(503), Some(503));
}

#[test]
fn error_messages() {
    assert_eq!(AppError::ServerError(503).describe(), "Server returned error code 503");
    let json = serde_json::from_str::<i32>("not json").unwrap_err();
    let detail = json.to_string();
    assert_eq!(AppError::from(json).describe(), format!("Data parsing error: {detail}"));
    let db = sqlx::Error::RowNotFound;
    let detail = db.to_string();
    assert_eq!(AppError::from(db).describe(), format!("Database error: {detail}"));
    let net = reqwest::Client::new().get("not a url").build().unwrap_err();
    let detail = net.to_string();
    let e = AppError::from(net);
    assert!(matches!(e, AppError::NetworkError(_)));
    assert_eq!(e.describe(), format!("Network error: {detail}"));
}

#[test]
fn refresh_failure_status_lines() {
    assert_eq!(
        fetch_failed_status("Server returned error code 500"),
        "Pro match fetch failed: Server returned error code 500 (showing cached data)"
    );
    assert_eq!(cache_write_failed_status("disk full"), "Cache write failed: disk full");
}
