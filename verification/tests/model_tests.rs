use esp_live::models::{LiveMatch, ProMatch, TeamStat};

pub fn pro(id: i64, radiant: Option<&str>, dire: Option<&str>, radiant_win: bool) -> ProMatch {
    ProMatch {
        match_id: id,
        duration: 2405,
        start_time: 1_700_000_000,
        radiant_team_id: Some(15),
        radiant_name: radiant.map(|s| s.to_string()),
        dire_team_id: None,
        dire_name: dire.map(|s| s.to_string()),
        league_name: Some("The International".to_string()),
        radiant_win,
    }
}

fn live(radiant_score: Option<i64>, dire_score: Option<i64>, game_time: Option<i64>) -> LiveMatch {
    LiveMatch {
        match_id: 77,
        radiant_name: None,
        dire_name: Some("OG".to_string()),
        radiant_score,
        dire_score,
        spectators: None,
        game_time,
        league_id: None,
    }
}

#[test]
fn pro_labels_fall_back_to_side_names() {
    let m = pro(1, Some("Team Spirit"), None, false);
    assert_eq!(m.radiant_label(), "Team Spirit");
    assert_eq!(m.dire_label(), "Dire");
    assert_eq!(m.winner_label(), "Dire");
    let m = pro(2, None, Some("OG"), true);
    assert_eq!(m.radiant_label(), "Radiant");
    assert_eq!(m.winner_label(), "Radiant");
    let m = pro(3, Some("Liquid"), Some("OG"), true);
    assert_eq!(m.winner_label(), "Liquid");
}

#[test]
fn pro_duration_label() {
    let mut m = pro(1, None, None, true);
    assert_eq!(m.duration_label(), "40:05");
    m.duration = 61;
    assert_eq!(m.duration_label(), "1:01");
}

#[test]
fn live_labels() {
    let m = live(Some(12), Some(7), Some(125));
    assert_eq!(m.radiant_label(), "Radiant");
    assert_eq!(m.dire_label(), "OG");
    assert_eq!(m.score_label(), "12 - 7");
    assert_eq!(m.game_time_label(), "2:05");
    let m = live(None, None, None);
    assert_eq!(m.score_label(), "0 - 0");
    assert_eq!(m.game_time_label(), "--:--");
    let m = live(Some(-1), None, Some(-90));
    assert_eq!(m.score_label(), "-1 - 0");
    assert_eq!(m.game_time_label(), "--:--");
    let m = live(None, Some(3), Some(0));
    assert_eq!(m.game_time_label(), "0:00");
}

#[test]
fn team_stat_total() {
    let s = TeamStat { team_name: "OG".to_string(), wins: 12, losses: 5 };
    assert_eq!(s.total(), 17);
    let s = TeamStat { team_name: "OG".to_string(), wins: 0, losses: 0 };
    assert_eq!(s.total(), 0);
}
