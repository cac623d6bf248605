use esp_live::app_state::{AppState, SortMode, Tab};
use esp_live::keys::{debounce, Key, KEY_DEBOUNCE_NANOS};
use esp_live::models::LiveMatch;
use esp_live::text::{clock_label, trim_text};

#[test]
fn debounce_rule() {
    assert!(debounce(Some(Key::Down), Key::Down, 0));
    assert!(debounce(Some(Key::Down), Key::Down, 179_999_999));
    assert!(!debounce(Some(Key::Down), Key::Down, 180_000_000));
    assert!(!debounce(Some(Key::Up), Key::Down, 0));
    assert!(!debounce(None, Key::Down, 0));
    assert!(!debounce(Some(Key::Char('a')), Key::Char('b'), 1));
    assert!(debounce(Some(Key::Media(3)), Key::Media(3), 1));
    assert!(!debounce(Some(Key::Media(3)), Key::Modifier(3), 1));
    assert_eq!(KEY_DEBOUNCE_NANOS, 180_000_000);
}

#[test]
fn three_steps_cycle_back() {
    let mut s = AppState::new(None);
    for _ in 0..3 {
        s.switch_tab();
    }
    assert_eq!(s.active_tab, Tab::Pro);
    assert_eq!(SortMode::Winner.next().next().next(), SortMode::Winner);
}

#[test]
fn trim_is_idempotent_and_confirmed_filter_trimmed() {
    for t in ["  a b  ", "\t\n", "x", "", " \u{3000}navi\u{2029}"] {
        let once = trim_text(t);
        assert_eq!(trim_text(once), once);
        let mut s = AppState::new(None);
        s.filter_buffer = t.to_string();
        s.confirm_filter_edit();
        match &s.filter {
            Some(f) => {
                assert!(!f.is_empty());
                assert_eq!(f.trim(), f);
                let before = s.filter.clone();
                s.start_filter_edit();
                s.confirm_filter_edit();
                assert_eq!(s.filter, before);
            }
            None => assert!(t.trim().is_empty()),
        }
    }
}

#[test]
fn selection_stays_in_list() {
    let mut s = AppState::new(None);
    s.active_tab = Tab::Live;
    for i in 0..5 {
        s.live_matches.push(LiveMatch {
            match_id: i,
            radiant_name: None,
            dire_name: None,
            radiant_score: None,
            dire_score: None,
            spectators: None,
            game_time: None,
            league_id: None,
        });
    }
    for d in [-12, -1, 0, 1, 3, 9, 100] {
        s.move_selection(d);
        assert!(s.selected_index < 5);
    }
}

#[test]
fn clock_parts_add_back() {
    for t in [0i64, 59, 60, 61, 3599, 3600, 7261] {
        let label = clock_label(t);
        let (m, sec) = label.split_once(':').unwrap();
        assert_eq!(m.parse::<i64>().unwrap() * 60 + sec.parse::<i64>().unwrap(), t);
        assert_eq!(sec.len(), 2);
    }
}
