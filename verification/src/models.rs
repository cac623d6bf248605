//! Match records as the OpenDota API and the local cache deliver them, and
//! the labels the views show for them.

use vstd::prelude::*;
use crate::text::{clock_label, clock_text, decimal_text, i64_text};

verus! {

/// A team name, or `fallback` when the record has none.
pub open spec fn name_or(name: Option<String>, fallback: Seq<char>) -> Seq<char> {
    match name {
        Some(s) => s@,
        None => fallback,
    }
}

/// A finished professional match.
#[derive(Debug, Clone)]
pub struct ProMatch {
    pub match_id: i64,
    pub duration: i64,
    pub start_time: i64,
    pub radiant_team_id: Option<i64>,
    pub radiant_name: Option<String>,
    pub dire_team_id: Option<i64>,
    pub dire_name: Option<String>,
    pub league_name: Option<String>,
    pub radiant_win: bool,
}

impl ProMatch {
    /// The Radiant side's name as shown: its team name, else `Radiant`.
    pub open spec fn radiant_text(&self) -> Seq<char> {
        name_or(self.radiant_name, "Radiant"@)
    }

    /// The Dire side's name as shown: its team name, else `Dire`.
    pub open spec fn dire_text(&self) -> Seq<char> {
        name_or(self.dire_name, "Dire"@)
    }

    /// The winning side's name as shown.
    pub open spec fn winner_text(&self) -> Seq<char> {
        if self.radiant_win {
            self.radiant_text()
        } else {
            self.dire_text()
        }
    }

    pub fn radiant_label(&self) -> (r: &str)
        ensures
            r@ == self.radiant_text(),
    {
        match &self.radiant_name {
            Some(name) => name.as_str(),
            None => "Radiant",
        }
    }

    pub fn dire_label(&self) -> (r: &str)
        ensures
            r@ == self.dire_text(),
    {
        match &self.dire_name {
            Some(name) => name.as_str(),
            None => "Dire",
        }
    }

    pub fn winner_label(&self) -> (r: &str)
        ensures
            r@ == self.winner_text(),
    {
        if self.radiant_win {
            self.radiant_label()
        } else {
            self.dire_label()
        }
    }

    /// The match length as `{minutes}:{seconds:02}`.
    pub fn duration_label(&self) -> (r: String)
        ensures
            r@ == clock_text(self.duration as int),
    {
        clock_label(self.duration)
    }
}

/// A match in progress. Most fields are optional because the live endpoint
/// does not always report them.
#[derive(Debug, Clone)]
pub struct LiveMatch {
    pub match_id: i64,
    pub radiant_name: Option<String>,
    pub dire_name: Option<String>,
    pub radiant_score: Option<i64>,
    pub dire_score: Option<i64>,
    pub spectators: Option<i64>,
    pub game_time: Option<i64>,
    pub league_id: Option<i64>,
}

/// A score as shown, 0 when it is not reported.
pub open spec fn score_or_zero(score: Option<i64>) -> int {
    match score {
        Some(v) => v as int,
        None => 0,
    }
}

/// The text of the score column: `{radiant} - {dire}`.
pub open spec fn score_text(radiant: Option<i64>, dire: Option<i64>) -> Seq<char> {
    decimal_text(score_or_zero(radiant)) + " - "@ + decimal_text(score_or_zero(dire))
}

/// The text of the game time column: the clock when the time is known and
/// not negative, else `--:--`.
pub open spec fn game_time_text(game_time: Option<i64>) -> Seq<char> {
    match game_time {
        Some(t) => if t >= 0 { clock_text(t as int) } else { "--:--"@ },
        None => "--:--"@,
    }
}

impl LiveMatch {
    pub open spec fn radiant_text(&self) -> Seq<char> {
        name_or(self.radiant_name, "Radiant"@)
    }

    pub open spec fn dire_text(&self) -> Seq<char> {
        name_or(self.dire_name, "Dire"@)
    }

    pub fn radiant_label(&self) -> (r: &str)
        ensures
            r@ == self.radiant_text(),
    {
        match &self.radiant_name {
            Some(name) => name.as_str(),
            None => "Radiant",
        }
    }

    pub fn dire_label(&self) -> (r: &str)
        ensures
            r@ == self.dire_text(),
    {
        match &self.dire_name {
            Some(name) => name.as_str(),
            None => "Dire",
        }
    }

    pub fn score_label(&self) -> (r: String)
        ensures
            r@ == score_text(self.radiant_score, self.dire_score),
    {
        let radiant: i64 = match self.radiant_score {
            Some(v) => v,
            None => 0,
        };
        let dire: i64 = match self.dire_score {
            Some(v) => v,
            None => 0,
        };
        let mut s = i64_text(radiant);
        s.append(" - ");
        let d = i64_text(dire);
        s.append(d.as_str());
        s
    }

    pub fn game_time_label(&self) -> (r: String)
        ensures
            r@ == game_time_text(self.game_time),
    {
        match self.game_time {
            Some(t) => {
                if t >= 0 {
                    clock_label(t)
                } else {
                    "--:--".to_owned()
                }
            },
            None => "--:--".to_owned(),
        }
    }
}

/// A team's win/loss record over the cached match history.
#[derive(Debug, Clone)]
pub struct TeamStat {
    pub team_name: String,
    pub wins: i64,
    pub losses: i64,
}

impl TeamStat {
    /// The number of matches in the record.
    pub fn total(&self) -> (r: i64)
        requires
            i64::MIN <= self.wins + self.losses <= i64::MAX,
        ensures
            r == self.wins + self.losses,
    {
        self.wins + self.losses
    }
}

} // verus!
