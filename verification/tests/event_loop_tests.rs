use esp_live::app_state::{on_event, pro_refresh_done, AppState, LoopAction, LoopEvent, RefreshMsg, Tab};
use esp_live::error::AppError;
use esp_live::models::TeamStat;
use esp_live::keys::Key;

/// One millisecond, in the nanoseconds that key presses are timed in.
const MS: u64 = 1_000_000;

fn nothing() -> LoopAction {
    LoopAction { refresh_pro: false, refresh_live: false, redraw: false, quit: false }
}

#[test]
fn timers_start_refreshes() {
    let mut s = AppState::new(None);
    s.is_loading_pro = false;
    s.is_loading_live = false;
    assert_eq!(on_event(&mut s, LoopEvent::ProTick), LoopAction { refresh_pro: true, ..nothing() });
    assert!(s.is_loading_pro && !s.is_loading_live);
    assert_eq!(on_event(&mut s, LoopEvent::LiveTick), LoopAction { refresh_live: true, ..nothing() });
    assert!(s.is_loading_live);
}

#[test]
fn spinner_advances_only_while_loading() {
    let mut s = AppState::new(None);
    assert_eq!(on_event(&mut s, LoopEvent::SpinnerTick), LoopAction { redraw: true, ..nothing() });
    assert_eq!(s.spinner_frame, 1);
    s.spinner_frame = usize::MAX;
    on_event(&mut s, LoopEvent::SpinnerTick);
    assert_eq!(s.spinner_frame, 0);
    s.is_loading_pro = false;
    s.is_loading_live = false;
    assert_eq!(on_event(&mut s, LoopEvent::SpinnerTick), nothing());
    assert_eq!(s.spinner_frame, 0);
}

#[test]
fn refresh_results_redraw() {
    let mut s = AppState::new(None);
    let a = on_event(&mut s, LoopEvent::Refreshed(RefreshMsg::ProMatchesFailed("offline".to_string())));
    assert_eq!(a, LoopAction { redraw: true, ..nothing() });
    assert_eq!(s.status, "offline");
    assert!(!s.is_loading_pro);
}

#[test]
fn key_events() {
    let mut s = AppState::new(None);
    assert_eq!(on_event(&mut s, LoopEvent::OtherKeyEvent), nothing());
    let a = on_event(&mut s, LoopEvent::KeyPressed { code: Key::Tab, ctrl: false, now_nanos: 1000 * MS });
    assert_eq!(a, LoopAction { redraw: true, ..nothing() });
    assert_eq!(s.active_tab, Tab::Live);
    let a = on_event(&mut s, LoopEvent::KeyPressed { code: Key::Char('q'), ctrl: false, now_nanos: 1100 * MS });
    assert_eq!(a, LoopAction { quit: true, ..nothing() });
    let a = on_event(&mut s, LoopEvent::KeyPressed { code: Key::Char('c'), ctrl: true, now_nanos: 1200 * MS });
    assert!(a.quit && !a.redraw);
}

#[test]
fn repeated_key_event_is_dropped_until_interval_passes() {
    let mut s = AppState::new(None);
    on_event(&mut s, LoopEvent::KeyPressed { code: Key::Tab, ctrl: false, now_nanos: 1000 * MS });
    assert_eq!(s.active_tab, Tab::Live);
    on_event(&mut s, LoopEvent::KeyPressed { code: Key::Tab, ctrl: false, now_nanos: 1100 * MS });
    assert_eq!(s.active_tab, Tab::Live);
    on_event(&mut s, LoopEvent::KeyPressed { code: Key::Tab, ctrl: false, now_nanos: 1280 * MS });
    assert_eq!(s.active_tab, Tab::Stats);
}

#[test]
fn control_c_event_quits_in_filter_editor() {
    let mut s = AppState::new(None);
    s.start_filter_edit();
    let a = on_event(&mut s, LoopEvent::KeyPressed { code: Key::Char('c'), ctrl: true, now_nanos: 10 * MS });
    assert!(a.quit);
    assert_eq!(s.filter_buffer, "");
}

#[test]
fn pro_refresh_message_keeps_stats_or_empties_them() {
    let stats = vec![TeamStat { team_name: "OG".to_string(), wins: 1, losses: 2 }];
    match pro_refresh_done(Vec::new(), Ok(stats)) {
        RefreshMsg::ProMatches { matches, stats } => {
            assert!(matches.is_empty());
            assert_eq!(stats.len(), 1);
            assert_eq!(stats[0].team_name, "OG");
        }
        _ => panic!("expected a successful refresh"),
    }
    match pro_refresh_done(Vec::new(), Err(AppError::ServerError(500))) {
        RefreshMsg::ProMatches { stats, .. } => assert!(stats.is_empty()),
        _ => panic!("expected a successful refresh"),
    }
}
