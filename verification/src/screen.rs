//! The text the terminal views show: captions of the tab bar, cells of the
//! tables, the help line and the lines of the detail popup. Colours and
//! layout are left to the terminal front end.

use vstd::prelude::*;
use crate::app_state::{spinner_frame_text, AppState, InputMode, SortMode, Tab, SPINNER_FRAME_COUNT};
use crate::models::{game_time_text, name_or, score_text, LiveMatch, ProMatch, TeamStat};
use crate::text::{clock_text, decimal_text, i64_text, push_char};

verus! {

/// The icon before a view's name in the tab bar.
pub open spec fn tab_icon(tab: Tab) -> Seq<char> {
    match tab {
        Tab::Pro => "🏆"@,
        Tab::Live => "⚡"@,
        Tab::Stats => "📊"@,
    }
}

/// The caption of a view in the tab bar: ` {icon} {name} `.
pub fn tab_caption(tab: Tab) -> (r: String)
    ensures
        r@ == " "@ + tab_icon(tab) + " "@ + tab.title() + " "@,
{
    let mut s = " ".to_owned();
    let icon = match tab {
        Tab::Pro => "🏆",
        Tab::Live => "⚡",
        Tab::Stats => "📊",
    };
    s.append(icon);
    s.append(" ");
    s.append(tab.label());
    s.append(" ");
    s
}

/// The spinner caption shown while a refresh is in flight.
pub fn syncing_caption(state: &AppState) -> (r: Option<String>)
    ensures
        state@.is_loading() <==> r is Some,
        r matches Some(t) ==> t@ == "  "@ + spinner_frame_text(
            state@.spinner_frame as int % SPINNER_FRAME_COUNT as int,
        ) + " syncing..."@,
{
    if state.is_loading() {
        let mut s = "  ".to_owned();
        s.append(state.spinner_char());
        s.append(" syncing...");
        Some(s)
    } else {
        None
    }
}

/// The caption of the active team filter, if there is one.
pub fn filter_caption(filter: &Option<String>) -> (r: Option<String>)
    ensures
        filter is Some <==> r is Some,
        r matches Some(t) ==> t@ == "  🔎 "@ + filter->0@,
{
    match filter {
        Some(f) => {
            let mut s = "  🔎 ".to_owned();
            s.append(f.as_str());
            Some(s)
        },
        None => None,
    }
}

/// The title of the tab bar: the status line with a space on each side.
pub fn status_title(status: &str) -> (r: String)
    ensures
        r@ == " "@ + status@ + " "@,
{
    let mut s = " ".to_owned();
    s.append(status);
    s.append(" ");
    s
}

/// The title of the pro match table, naming the sort order.
pub fn pro_table_title(mode: SortMode) -> (r: String)
    ensures
        r@ == " Pro Matches — sort: "@ + mode.title() + " "@,
{
    let mut s = " Pro Matches — sort: ".to_owned();
    s.append(mode.label());
    s.append(" ");
    s
}

/// The help line at the bottom: the filter being typed while the filter
/// editor is open, the key bindings otherwise.
pub open spec fn help_line(mode: InputMode, filter_buffer: Seq<char>) -> Seq<char> {
    match mode {
        InputMode::EditingFilter => " 🔎 Filter: "@ + filter_buffer + "▎  (Enter=confirm, Esc=cancel)"@,
        InputMode::Normal => " ⭾ switch view   ↑/↓ select   ⏎ details   / filter   s sort   q quit"@,
    }
}

pub fn help_text(mode: InputMode, filter_buffer: &str) -> (r: String)
    ensures
        r@ == help_line(mode, filter_buffer@),
{
    match mode {
        InputMode::EditingFilter => {
            let mut s = " 🔎 Filter: ".to_owned();
            s.append(filter_buffer);
            s.append("▎  (Enter=confirm, Esc=cancel)");
            s
        },
        InputMode::Normal => " ⭾ switch view   ↑/↓ select   ⏎ details   / filter   s sort   q quit".to_owned(),
    }
}

/// The icon of a pro match's result: green when Radiant won, red otherwise.
pub open spec fn result_icon(radiant_win: bool) -> Seq<char> {
    if radiant_win { "🟢"@ } else { "🔴"@ }
}

/// The cells of a pro match's row: id with result icon, Radiant, Dire,
/// winner and duration.
pub open spec fn pro_cells(m: ProMatch) -> Seq<Seq<char>> {
    seq![
        result_icon(m.radiant_win) + " "@ + decimal_text(m.match_id as int),
        m.radiant_text(),
        m.dire_text(),
        m.winner_text(),
        clock_text(m.duration as int),
    ]
}

/// The characters of each string of `v`.
pub open spec fn texts(v: Seq<String>) -> Seq<Seq<char>> {
    v.map_values(|s: String| s@)
}

fn prefixed(prefix: &str, rest: &str) -> (r: String)
    ensures
        r@ == prefix@ + rest@,
{
    let mut s = prefix.to_owned();
    s.append(rest);
    s
}

pub fn pro_row(m: &ProMatch) -> (r: Vec<String>)
    ensures
        texts(r@) == pro_cells(*m),
{
    let mut first = (if m.radiant_win { "🟢" } else { "🔴" }).to_owned();
    first.append(" ");
    let id = i64_text(m.match_id);
    first.append(id.as_str());
    let mut r: Vec<String> = Vec::new();
    r.push(first);
    r.push(m.radiant_label().to_owned());
    r.push(m.dire_label().to_owned());
    r.push(m.winner_label().to_owned());
    r.push(m.duration_label());
    assert(texts(r@)[0] == pro_cells(*m)[0]);
    assert(texts(r@)[1] == pro_cells(*m)[1]);
    assert(texts(r@)[4] == pro_cells(*m)[4]);
    assert(texts(r@) =~= pro_cells(*m));
    r
}

/// An optional count as a cell: its digits, or `missing` when absent.
pub open spec fn count_or(v: Option<i64>, missing: Seq<char>) -> Seq<char> {
    match v {
        Some(n) => decimal_text(n as int),
        None => missing,
    }
}

fn count_text(v: Option<i64>, missing: &str) -> (r: String)
    ensures
        r@ == count_or(v, missing@),
{
    match v {
        Some(n) => i64_text(n),
        None => missing.to_owned(),
    }
}

/// The cells of a live match's row: id, Radiant, Dire, score, game time and
/// spectators (empty when unknown).
pub open spec fn live_cells(m: LiveMatch) -> Seq<Seq<char>> {
    seq![
        "⚡ "@ + decimal_text(m.match_id as int),
        m.radiant_text(),
        m.dire_text(),
        score_text(m.radiant_score, m.dire_score),
        game_time_text(m.game_time),
        count_or(m.spectators, Seq::empty()),
    ]
}

pub fn live_row(m: &LiveMatch) -> (r: Vec<String>)
    ensures
        texts(r@) == live_cells(*m),
{
    let id = i64_text(m.match_id);
    let mut r: Vec<String> = Vec::new();
    r.push(prefixed("⚡ ", id.as_str()));
    r.push(m.radiant_label().to_owned());
    r.push(m.dire_label().to_owned());
    r.push(m.score_label());
    r.push(m.game_time_label());
    r.push(count_text(m.spectators, ""));
    proof {
        reveal_strlit("");
    }
    assert(texts(r@)[0] == live_cells(*m)[0]);
    assert(texts(r@)[5] == live_cells(*m)[5]);
    assert(texts(r@) =~= live_cells(*m));
    r
}

/// The medal of a rank in the stats table: gold, silver and bronze for the
/// first three rows, blank after.
pub open spec fn rank_icon(rank: int) -> Seq<char> {
    if rank == 0 { "🥇"@ }
    else if rank == 1 { "🥈"@ }
    else if rank == 2 { "🥉"@ }
    else { "  "@ }
}

/// The team cell of row `rank` of the stats table: medal, then team name.
pub fn team_cell(rank: usize, stat: &TeamStat) -> (r: String)
    ensures
        r@ == rank_icon(rank as int) + " "@ + stat.team_name@,
{
    let icon = if rank == 0 { "🥇" } else if rank == 1 { "🥈" } else if rank == 2 { "🥉" } else { "  " };
    let mut s = icon.to_owned();
    s.append(" ");
    s.append(stat.team_name.as_str());
    s
}


/// A line of the detail popup.
pub enum DetailLine {
    Blank,
    /// A label, padded to the label column, and its value.
    Field { label: String, value: String },
    /// The winner line: label and value, shown in the winner's colour.
    Winner { label: String, value: String },
    /// A message in place of the fields.
    Note(String),
}

/// A line of the detail popup, with its strings as characters.
pub enum DetailLineView {
    Blank,
    Field(Seq<char>, Seq<char>),
    Winner(Seq<char>, Seq<char>),
    Note(Seq<char>),
}

impl View for DetailLine {
    type V = DetailLineView;

    open spec fn view(&self) -> DetailLineView {
        match self {
            DetailLine::Blank => DetailLineView::Blank,
            DetailLine::Field { label, value } => DetailLineView::Field(label@, value@),
            DetailLine::Winner { label, value } => DetailLineView::Winner(label@, value@),
            DetailLine::Note(t) => DetailLineView::Note(t@),
        }
    }
}

/// The width of the label column of the detail popup.
pub const LABEL_WIDTH: usize = 16;

/// A label left-aligned in the label column, as `{:<16}` pads it.
pub open spec fn padded_label(label: Seq<char>) -> Seq<char> {
    if label.len() < LABEL_WIDTH {
        label + Seq::new((LABEL_WIDTH - label.len()) as nat, |i: int| ' ')
    } else {
        label
    }
}

fn pad_label(label: &str) -> (r: String)
    ensures
        r@ == padded_label(label@),
{
    let n = label.unicode_len();
    let mut s = label.to_owned();
    let mut i: usize = n;
    while i < LABEL_WIDTH
        invariant
            n == label@.len(),
            n <= i,
            i <= LABEL_WIDTH || i == n,
            s@ == label@ + Seq::new((i - n) as nat, |j: int| ' '),
        decreases LABEL_WIDTH - i,
    {
        push_char(&mut s, ' ');
        assert(s@ =~= label@ + Seq::new((i + 1 - n) as nat, |j: int| ' '));
        i = i + 1;
    }
    if n >= LABEL_WIDTH {
        assert(s@ =~= label@);
    }
    s
}

fn field_line(label: &str, value: String) -> (r: DetailLine)
    ensures
        r@ == DetailLineView::Field(padded_label(label@), value@),
{
    DetailLine::Field { label: pad_label(label), value }
}

/// The lines of a view of detail lines.
pub open spec fn lines_view(v: Seq<DetailLine>) -> Seq<DetailLineView> {
    v.map_values(|l: DetailLine| l@)
}

pub open spec fn field(label: Seq<char>, value: Seq<char>) -> DetailLineView {
    DetailLineView::Field(padded_label(label), value)
}

/// The detail popup of a pro match, or a note when no match is selected.
pub open spec fn pro_detail(m: Option<ProMatch>) -> Seq<DetailLineView> {
    match m {
        Some(m) => seq![
            field("Match ID"@, decimal_text(m.match_id as int)),
            field("League"@, name_or(m.league_name, "Unknown"@)),
            DetailLineView::Blank,
            field("Radiant"@, m.radiant_text()),
            field("Dire"@, m.dire_text()),
            DetailLineView::Winner(padded_label("Winner"@), "🏆 "@ + m.winner_text()),
            DetailLineView::Blank,
            field("Duration"@, clock_text(m.duration as int)),
            field("Radiant team id"@, count_or(m.radiant_team_id, "-"@)),
            field("Dire team id"@, count_or(m.dire_team_id, "-"@)),
        ],
        None => seq![DetailLineView::Note("No match selected"@)],
    }
}

pub fn pro_detail_lines(m: Option<&ProMatch>) -> (r: Vec<DetailLine>)
    ensures
        lines_view(r@) == pro_detail(
            match m {
                Some(x) => Some(*x),
                None => None,
            },
        ),
{
    let mut r: Vec<DetailLine> = Vec::new();
    match m {
        Some(m) => {
            r.push(field_line("Match ID", i64_text(m.match_id)));
            let league = match &m.league_name {
                Some(l) => l.clone(),
                None => "Unknown".to_owned(),
            };
            r.push(field_line("League", league));
            r.push(DetailLine::Blank);
            r.push(field_line("Radiant", m.radiant_label().to_owned()));
            r.push(field_line("Dire", m.dire_label().to_owned()));
            r.push(DetailLine::Winner { label: pad_label("Winner"), value: prefixed("🏆 ", m.winner_label()) });
            r.push(DetailLine::Blank);
            r.push(field_line("Duration", m.duration_label()));
            r.push(field_line("Radiant team id", count_text(m.radiant_team_id, "-")));
            r.push(field_line("Dire team id", count_text(m.dire_team_id, "-")));
            assert(lines_view(r@) =~= pro_detail(Some(*m)));
        },
        None => {
            r.push(DetailLine::Note("No match selected".to_owned()));
            assert(lines_view(r@) =~= pro_detail(None));
        },
    }
    r
}

/// The detail popup of a live match, or a note when no match is selected.
pub open spec fn live_detail(m: Option<LiveMatch>) -> Seq<DetailLineView> {
    match m {
        Some(m) => seq![
            field("Match ID"@, decimal_text(m.match_id as int)),
            DetailLineView::Blank,
            field("Radiant"@, m.radiant_text()),
            field("Dire"@, m.dire_text()),
            field("Score"@, score_text(m.radiant_score, m.dire_score)),
            DetailLineView::Blank,
            field("Game time"@, game_time_text(m.game_time)),
            field("Spectators"@, count_or(m.spectators, "-"@)),
            field("League id"@, count_or(m.league_id, "-"@)),
        ],
        None => seq![DetailLineView::Note("No match selected"@)],
    }
}

pub fn live_detail_lines(m: Option<&LiveMatch>) -> (r: Vec<DetailLine>)
    ensures
        lines_view(r@) == live_detail(
            match m {
                Some(x) => Some(*x),
                None => None,
            },
        ),
{
    let mut r: Vec<DetailLine> = Vec::new();
    match m {
        Some(m) => {
            r.push(field_line("Match ID", i64_text(m.match_id)));
            r.push(DetailLine::Blank);
            r.push(field_line("Radiant", m.radiant_label().to_owned()));
            r.push(field_line("Dire", m.dire_label().to_owned()));
            r.push(field_line("Score", m.score_label()));
            r.push(DetailLine::Blank);
            r.push(field_line("Game time", m.game_time_label()));
            r.push(field_line("Spectators", count_text(m.spectators, "-")));
            r.push(field_line("League id", count_text(m.league_id, "-")));
            assert(lines_view(r@) =~= live_detail(Some(*m)));
        },
        None => {
            r.push(DetailLine::Note("No match selected".to_owned()));
            assert(lines_view(r@) =~= live_detail(None));
        },
    }
    r
}

} // verus!
