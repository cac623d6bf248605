use esp_live::app_state::{
    apply_key, apply_refresh, handle_key, AppState, InputMode, RefreshMsg, SortMode, Tab,
};
use esp_live::error::AppError;
use esp_live::keys::Key;
use esp_live::models::{LiveMatch, ProMatch, TeamStat};

/// One millisecond, in the nanoseconds that key presses are timed in.
const MS: u64 = 1_000_000;

fn pro(id: i64, radiant: &str, dire: &str, start_time: i64, duration: i64, radiant_win: bool) -> ProMatch {
    ProMatch {
        match_id: id,
        duration,
        start_time,
        radiant_team_id: None,
        radiant_name: Some(radiant.to_string()),
        dire_team_id: None,
        dire_name: Some(dire.to_string()),
        league_name: None,
        radiant_win,
    }
}

fn live(id: i64, radiant: Option<&str>, dire: Option<&str>) -> LiveMatch {
    LiveMatch {
        match_id: id,
        radiant_name: radiant.map(|s| s.to_string()),
        dire_name: dire.map(|s| s.to_string()),
        radiant_score: None,
        dire_score: None,
        spectators: None,
        game_time: None,
        league_id: None,
    }
}

fn sample_state(filter: Option<&str>) -> AppState {
    let mut s = AppState::new(filter.map(|f| f.to_string()));
    s.pro_matches = vec![
        pro(1, "Team NaVi", "OG", 100, 1800, true),
        pro(2, "Liquid", "Tundra", 300, 2400, false),
        pro(3, "Gaimin", "Navi Junior", 200, 2400, false),
        pro(4, "Alliance", "Spirit", 300, 1200, true),
    ];
    s.live_matches = vec![
        live(10, Some("NAVI"), Some("OG")),
        live(11, None, Some("Liquid")),
        live(12, Some("Secret"), Some("navi.junior")),
    ];
    s.team_stats = vec![
        TeamStat { team_name: "OG".to_string(), wins: 3, losses: 1 },
        TeamStat { team_name: "Liquid".to_string(), wins: 2, losses: 2 },
    ];
    s
}

fn ids(v: &[&ProMatch]) -> Vec<i64> {
    v.iter().map(|m| m.match_id).collect()
}

#[test]
fn tab_labels_and_cycle() {
    assert_eq!(Tab::Pro.label(), "Pro Matches");
    assert_eq!(Tab::Live.label(), "Live Matches");
    assert_eq!(Tab::Stats.label(), "Team Stats");
    assert_eq!(Tab::Pro.next(), Tab::Live);
    assert_eq!(Tab::Live.next(), Tab::Stats);
    assert_eq!(Tab::Stats.next(), Tab::Pro);
    for t in [Tab::Pro, Tab::Live, Tab::Stats] {
        assert_eq!(t.next().next().next(), t);
    }
}

#[test]
fn sort_mode_labels_and_cycle() {
    assert_eq!(SortMode::Newest.label(), "newest first");
    assert_eq!(SortMode::Duration.label(), "duration");
    assert_eq!(SortMode::Winner.label(), "winner name");
    assert_eq!(SortMode::Newest.next(), SortMode::Duration);
    assert_eq!(SortMode::Duration.next(), SortMode::Winner);
    assert_eq!(SortMode::Winner.next(), SortMode::Newest);
    for m in [SortMode::Newest, SortMode::Duration, SortMode::Winner] {
        assert_eq!(m.next().next().next(), m);
    }
}

#[test]
fn new_state_is_loading() {
    let s = AppState::new(Some("navi".to_string()));
    assert_eq!(s.status, "Loading...");
    assert!(s.is_loading_pro && s.is_loading_live);
    assert!(s.is_loading());
    assert_eq!(s.active_tab, Tab::Pro);
    assert_eq!(s.sort_mode, SortMode::Newest);
    assert_eq!(s.input_mode, InputMode::Normal);
    assert_eq!(s.filter.as_deref(), Some("navi"));
    assert_eq!(s.selected_index, 0);
    assert!(!s.show_detail);
    assert!(s.pro_matches.is_empty() && s.live_matches.is_empty() && s.team_stats.is_empty());
}

#[test]
fn pro_view_sorted_newest_first_with_stable_ties() {
    let s = sample_state(None);
    assert_eq!(ids(&s.visible_pro_matches()), vec![2, 4, 3, 1]);
    assert_eq!(s.visible_pro_order(), vec![1, 3, 2, 0]);
}

#[test]
fn pro_view_sorted_by_duration() {
    let mut s = sample_state(None);
    s.sort_mode = SortMode::Duration;
    assert_eq!(ids(&s.visible_pro_matches()), vec![2, 3, 1, 4]);
}

#[test]
fn pro_view_sorted_by_winner_name() {
    let mut s = sample_state(None);
    s.sort_mode = SortMode::Winner;
    // winners: 1 Team NaVi, 2 Tundra, 3 Navi Junior, 4 Alliance
    assert_eq!(ids(&s.visible_pro_matches()), vec![4, 3, 1, 2]);
}

#[test]
fn filter_is_case_insensitive_on_either_side() {
    let s = sample_state(Some("NAVI"));
    assert_eq!(ids(&s.visible_pro_matches()), vec![3, 1]);
    let live: Vec<i64> = s.visible_live_matches().iter().map(|m| m.match_id).collect();
    assert_eq!(live, vec![10, 12]);
    let s = sample_state(Some("dire"));
    let live: Vec<i64> = s.visible_live_matches().iter().map(|m| m.match_id).collect();
    assert_eq!(live, Vec::<i64>::new());
    let s = sample_state(Some("radiant"));
    let live: Vec<i64> = s.visible_live_matches().iter().map(|m| m.match_id).collect();
    assert_eq!(live, vec![11]);
}

#[test]
fn no_filter_shows_everything() {
    let s = sample_state(None);
    assert_eq!(s.visible_pro_matches().len(), s.pro_matches.len());
    assert_eq!(s.visible_live_matches().len(), s.live_matches.len());
}

#[test]
fn current_list_len_follows_tab() {
    let mut s = sample_state(Some("navi"));
    assert_eq!(s.current_list_len(), 2);
    s.active_tab = Tab::Live;
    assert_eq!(s.current_list_len(), 2);
    s.active_tab = Tab::Stats;
    assert_eq!(s.current_list_len(), 2);
    s.team_stats.clear();
    assert_eq!(s.current_list_len(), 0);
}

#[test]
fn move_selection_wraps_around() {
    let mut s = sample_state(None);
    s.move_selection(-1);
    assert_eq!(s.selected_index, 3);
    s.move_selection(1);
    assert_eq!(s.selected_index, 0);
    s.move_selection(2);
    assert_eq!(s.selected_index, 2);
    s.move_selection(7);
    assert_eq!(s.selected_index, 1);
    s.move_selection(-6);
    assert_eq!(s.selected_index, 3);
    s.selected_index = 2;
    s.move_selection(1);
    s.move_selection(-1);
    assert_eq!(s.selected_index, 2);
}

#[test]
fn move_selection_on_empty_list_resets() {
    let mut s = AppState::new(None);
    s.selected_index = 5;
    s.move_selection(1);
    assert_eq!(s.selected_index, 0);
}

#[test]
fn switch_tab_resets_selection_and_detail() {
    let mut s = sample_state(None);
    s.selected_index = 2;
    s.show_detail = true;
    s.switch_tab();
    assert_eq!(s.active_tab, Tab::Live);
    assert_eq!(s.selected_index, 0);
    assert!(!s.show_detail);
    s.switch_tab();
    s.switch_tab();
    assert_eq!(s.active_tab, Tab::Pro);
}

#[test]
fn filter_editing_round_trip() {
    let mut s = sample_state(Some("navi"));
    s.start_filter_edit();
    assert_eq!(s.input_mode, InputMode::EditingFilter);
    assert_eq!(s.filter_buffer, "navi");
    s.confirm_filter_edit();
    assert_eq!(s.filter.as_deref(), Some("navi"));
    assert_eq!(s.input_mode, InputMode::Normal);

    s.selected_index = 3;
    s.start_filter_edit();
    s.filter_buffer = "  og \t".to_string();
    s.confirm_filter_edit();
    assert_eq!(s.filter.as_deref(), Some("og"));
    assert_eq!(s.selected_index, 0);

    s.start_filter_edit();
    s.filter_buffer = "   ".to_string();
    s.confirm_filter_edit();
    assert_eq!(s.filter, None);

    let mut s = AppState::new(None);
    s.start_filter_edit();
    assert_eq!(s.filter_buffer, "");
}

#[test]
fn cancel_filter_edit_keeps_filter() {
    let mut s = sample_state(Some("og"));
    s.start_filter_edit();
    s.filter_buffer.push_str("xyz");
    s.cancel_filter_edit();
    assert_eq!(s.filter.as_deref(), Some("og"));
    assert_eq!(s.filter_buffer, "");
    assert_eq!(s.input_mode, InputMode::Normal);
}

#[test]
fn loading_and_spinner() {
    let mut s = AppState::new(None);
    s.is_loading_pro = false;
    assert!(s.is_loading());
    s.is_loading_live = false;
    assert!(!s.is_loading());
    let frames = ["⠋", "⠙", "⠹", "⠸", "⠼", "⠴", "⠦", "⠧", "⠇", "⠏"];
    for f in 0..25usize {
        s.spinner_frame = f;
        assert_eq!(s.spinner_char(), frames[f % 10]);
    }
    s.spinner_frame = 11;
    let a = s.spinner_char();
    s.spinner_frame = 21;
    assert_eq!(a, s.spinner_char());
}

#[test]
fn selected_rows() {
    let mut s = sample_state(None);
    s.selected_index = 1;
    assert_eq!(s.selected_pro().map(|m| m.match_id), Some(4));
    assert_eq!(s.selected_live().map(|m| m.match_id), Some(11));
    s.selected_index = 3;
    assert_eq!(s.selected_live().map(|m| m.match_id), None);
    s.selected_index = 9;
    assert!(s.selected_pro().is_none());
}

#[test]
fn key_repeat_detection() {
    let mut s = AppState::new(None);
    assert!(!s.is_repeat(Key::Down, 1000 * MS));
    assert!(s.is_repeat(Key::Down, 1100 * MS));
    assert!(!s.is_repeat(Key::Up, 1150 * MS));
    // exactly the debounce interval later the key counts again
    assert!(!s.is_repeat(Key::Up, 1330 * MS));
    assert!(s.is_repeat(Key::Up, 1509 * MS));
    // a clock reading before the last one counts as no time passed
    assert!(s.is_repeat(Key::Up, 100 * MS));
    assert!(!s.is_repeat(Key::Down, 100 * MS));
}

#[test]
fn repeat_is_measured_from_the_last_press() {
    let mut s = AppState::new(None);
    assert!(!s.is_repeat(Key::Down, 0 * MS));
    assert!(s.is_repeat(Key::Down, 100 * MS));
    // 200 ms after the first press, but only 100 ms after the second
    assert!(s.is_repeat(Key::Down, 200 * MS));
    assert!(!s.is_repeat(Key::Down, 380 * MS));
}

#[test]
fn keys_in_filter_editor() {
    let mut s = sample_state(None);
    assert!(!handle_key(Key::Char('/'), false, 1000 * MS, &mut s));
    assert_eq!(s.input_mode, InputMode::EditingFilter);
    for c in "navix".chars() {
        assert!(!handle_key(Key::Char(c), false, 2000 * MS, &mut s));
    }
    assert!(!handle_key(Key::Backspace, false, 3000 * MS, &mut s));
    assert_eq!(s.filter_buffer, "navi");
    assert!(!handle_key(Key::Char('q'), false, 4000 * MS, &mut s));
    assert_eq!(s.filter_buffer, "naviq");
    assert!(!handle_key(Key::Backspace, false, 5000 * MS, &mut s));
    assert!(!handle_key(Key::Down, false, 6000 * MS, &mut s));
    assert!(!handle_key(Key::Enter, false, 7000 * MS, &mut s));
    assert_eq!(s.filter.as_deref(), Some("navi"));
    assert_eq!(s.input_mode, InputMode::Normal);

    let mut s = sample_state(Some("og"));
    s.start_filter_edit();
    handle_key(Key::Char('x'), false, 8000 * MS, &mut s);
    handle_key(Key::Esc, false, 9000 * MS, &mut s);
    assert_eq!(s.filter.as_deref(), Some("og"));
    assert_eq!(s.filter_buffer, "");
    let mut s = AppState::new(None);
    s.start_filter_edit();
    handle_key(Key::Backspace, false, 10000 * MS, &mut s);
    assert_eq!(s.filter_buffer, "");
}

#[test]
fn quit_keys() {
    let mut s = sample_state(None);
    assert!(handle_key(Key::Char('q'), false, 11000 * MS, &mut s));
    assert!(handle_key(Key::Char('c'), true, 12000 * MS, &mut s));
    assert!(!handle_key(Key::Char('c'), false, 13000 * MS, &mut s));
    assert_eq!(s.active_tab, Tab::Pro);
}

#[test]
fn control_c_quits_in_filter_editor() {
    let mut s = sample_state(None);
    s.start_filter_edit();
    assert!(!handle_key(Key::Char('n'), false, 1000 * MS, &mut s));
    assert!(handle_key(Key::Char('c'), true, 1100 * MS, &mut s));
    assert_eq!(s.filter_buffer, "n");
    assert_eq!(s.input_mode, InputMode::EditingFilter);
    // without Control, `c` is typed into the filter
    assert!(!handle_key(Key::Char('c'), false, 1200 * MS, &mut s));
    assert_eq!(s.filter_buffer, "nc");
}

#[test]
fn quit_key_leaves_debounce_untouched() {
    let mut s = sample_state(None);
    assert!(!handle_key(Key::Down, false, 1000 * MS, &mut s));
    assert_eq!(s.selected_index, 1);
    assert!(handle_key(Key::Char('c'), true, 1100 * MS, &mut s));
    // the quit press was not recorded: Down is still the last key
    assert!(!handle_key(Key::Down, false, 1150 * MS, &mut s));
    assert_eq!(s.selected_index, 1);
}

#[test]
fn same_key_counts_again_after_debounce_interval() {
    let mut s = sample_state(None);
    assert!(!handle_key(Key::Down, false, 5000 * MS, &mut s));
    assert_eq!(s.selected_index, 1);
    assert!(!handle_key(Key::Down, false, 5179 * MS, &mut s));
    assert_eq!(s.selected_index, 1);
    // 180 ms after the dropped press the key counts again
    assert!(!handle_key(Key::Down, false, 5359 * MS, &mut s));
    assert_eq!(s.selected_index, 2);
    // a second Down minutes later moves the selection too
    assert!(!handle_key(Key::Down, false, 245_359 * MS, &mut s));
    assert_eq!(s.selected_index, 3);
}

#[test]
fn seeding_from_cache() {
    let mut s = AppState::new(None);
    let cached = sample_state(None).pro_matches;
    let stats = sample_state(None).team_stats;
    s.seed_from_cache(Ok(cached.clone()), Err(AppError::ServerError(500)));
    assert_eq!(s.pro_matches.len(), cached.len());
    assert!(s.team_stats.is_empty());
    s.seed_from_cache(Err(AppError::ServerError(500)), Ok(stats.clone()));
    assert_eq!(s.pro_matches.len(), cached.len());
    assert_eq!(s.team_stats.len(), stats.len());
    assert_eq!(s.team_stats[0].team_name, stats[0].team_name);
}

#[test]
fn keys_in_normal_mode() {
    let mut s = sample_state(None);
    assert!(!handle_key(Key::Down, false, 14000 * MS, &mut s));
    assert_eq!(s.selected_index, 1);
    // the same key again 50 ms later is a repeat and is dropped
    assert!(!handle_key(Key::Down, false, 14050 * MS, &mut s));
    assert_eq!(s.selected_index, 1);
    assert!(!handle_key(Key::Up, false, 16000 * MS, &mut s));
    assert_eq!(s.selected_index, 0);
    assert!(!handle_key(Key::Enter, false, 17000 * MS, &mut s));
    assert!(s.show_detail);
    assert!(!handle_key(Key::Esc, false, 18000 * MS, &mut s));
    assert!(!s.show_detail);
    assert!(!handle_key(Key::Char('s'), false, 19000 * MS, &mut s));
    assert_eq!(s.sort_mode, SortMode::Duration);
    assert!(!handle_key(Key::Tab, false, 20000 * MS, &mut s));
    assert_eq!(s.active_tab, Tab::Live);
    assert!(!handle_key(Key::Char('s'), false, 21000 * MS, &mut s));
    assert_eq!(s.sort_mode, SortMode::Duration);
    assert!(!handle_key(Key::F(5), false, 22000 * MS, &mut s));
    assert_eq!(s.active_tab, Tab::Live);
}

#[test]
fn apply_key_runs_actions() {
    let mut s = sample_state(None);
    s.active_tab = Tab::Stats;
    apply_key(Key::Enter, &mut s);
    assert!(!s.show_detail);
    apply_key(Key::Char('s'), &mut s);
    assert_eq!(s.sort_mode, SortMode::Newest);
    apply_key(Key::Up, &mut s);
    assert_eq!(s.selected_index, 1);
    apply_key(Key::Char('/'), &mut s);
    assert_eq!(s.input_mode, InputMode::EditingFilter);
}

#[test]
fn refresh_messages_update_state() {
    let mut s = AppState::new(None);
    let matches = vec![pro(1, "A", "B", 1, 1, true), pro(2, "C", "D", 2, 2, false)];
    let stats = vec![TeamStat { team_name: "A".to_string(), wins: 1, losses: 0 }];
    apply_refresh(&mut s, RefreshMsg::ProMatches { matches, stats });
    assert_eq!(s.status, "Last update OK - 2 pro matches cached");
    assert_eq!(s.pro_matches.len(), 2);
    assert_eq!(s.team_stats.len(), 1);
    assert!(!s.is_loading_pro);
    assert!(s.is_loading());
    apply_refresh(&mut s, RefreshMsg::LiveMatches(vec![live(5, None, None)]));
    assert_eq!(s.live_matches.len(), 1);
    assert!(!s.is_loading());
    s.is_loading_pro = true;
    apply_refresh(&mut s, RefreshMsg::ProMatchesFailed("boom".to_string()));
    assert_eq!(s.status, "boom");
    assert!(!s.is_loading_pro);
    assert_eq!(s.pro_matches.len(), 2);
}

#[test]
fn debounce_counts_below_a_millisecond() {
    let mut s = AppState::new(None);
    assert!(!s.is_repeat(Key::Down, 1_000_400_000));
    // 179.9 ms later: still a repeat
    assert!(s.is_repeat(Key::Down, 1_180_300_000));
    // 179.999999 ms after that one: still a repeat
    assert!(s.is_repeat(Key::Down, 1_360_299_999));
    // exactly 180 ms after the last press: counts
    assert!(!s.is_repeat(Key::Down, 1_540_299_999));
}

#[test]
fn which_presses_run_an_action() {
    let mut s = sample_state(None);
    assert!(s.press_runs_action(Key::Down, false, 1000 * MS));
    assert!(!s.press_runs_action(Key::Char('q'), false, 1000 * MS));
    assert!(!s.press_runs_action(Key::Char('c'), true, 1000 * MS));
    assert!(s.press_runs_action(Key::Char('c'), false, 1000 * MS));
    assert!(!handle_key(Key::Down, false, 1000 * MS, &mut s));
    assert!(!s.press_runs_action(Key::Down, false, 1100 * MS));
    assert!(s.press_runs_action(Key::Up, false, 1100 * MS));
    assert!(s.press_runs_action(Key::Down, false, 1180 * MS));
    // asking records nothing
    assert!(!s.press_runs_action(Key::Down, false, 1100 * MS));
    s.start_filter_edit();
    assert!(!s.press_runs_action(Key::Up, false, 5000 * MS));
}

#[test]
fn moving_there_and_back_returns() {
    let mut s = sample_state(None);
    s.selected_index = 1;
    s.move_selection(6);
    assert_eq!(s.selected_index, 3);
    s.move_selection(-6);
    assert_eq!(s.selected_index, 1);
    s.move_selection(-3);
    assert_eq!(s.selected_index, 2);
    s.move_selection(3);
    assert_eq!(s.selected_index, 1);
}
