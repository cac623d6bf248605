//! The interactive state of the tracker: which view is shown, how the pro
//! match list is filtered and sorted, the selection, the filter editor and
//! the loading indicators.

use vstd::prelude::*;
use crate::keys::{debounce, is_repeat_press, nanos_between, Key};
use crate::error::AppError;
use crate::models::{LiveMatch, ProMatch, TeamStat};
use crate::ordering::{
    lemma_filter_take_step, lemma_insert_keeps_sorted, lemma_pro_before_total,
    lemma_pro_before_transitive, lemma_pro_order_unique, sorted_by_pro,
};
use crate::text::{decimal_text, pop_char, push_char, usize_text, has_substring, lowercase, str_contains, str_eq, str_lt, text_lt, to_lowercase, trim_text, trimmed};

verus! {

/// The three views of the tracker.
#[derive(Debug, Clone, Copy, PartialEq, Eq, Structural)]
pub enum Tab {
    Pro,
    Live,
    Stats,
}

impl Tab {
    pub open spec fn title(self) -> Seq<char> {
        match self {
            Tab::Pro => "Pro Matches"@,
            Tab::Live => "Live Matches"@,
            Tab::Stats => "Team Stats"@,
        }
    }

    /// The view that follows this one: Pro, Live, Stats, then Pro again.
    pub open spec fn following(self) -> Tab {
        match self {
            Tab::Pro => Tab::Live,
            Tab::Live => Tab::Stats,
            Tab::Stats => Tab::Pro,
        }
    }

    pub fn label(&self) -> (r: &'static str)
        ensures
            r@ == self.title(),
    {
        match self {
            Tab::Pro => "Pro Matches",
            Tab::Live => "Live Matches",
            Tab::Stats => "Team Stats",
        }
    }

    pub fn next(self) -> (r: Self)
        ensures
            r == self.following(),
    {
        match self {
            Tab::Pro => Tab::Live,
            Tab::Live => Tab::Stats,
            Tab::Stats => Tab::Pro,
        }
    }
}

/// The orders the pro match list can be shown in.
#[derive(Debug, Clone, Copy, PartialEq, Eq, Structural)]
pub enum SortMode {
    Newest,
    Duration,
    Winner,
}

impl SortMode {
    /// The order that follows this one: Newest, Duration, Winner, then
    /// Newest again.
    pub open spec fn following(self) -> SortMode {
        match self {
            SortMode::Newest => SortMode::Duration,
            SortMode::Duration => SortMode::Winner,
            SortMode::Winner => SortMode::Newest,
        }
    }

    pub open spec fn title(self) -> Seq<char> {
        match self {
            SortMode::Newest => "newest first"@,
            SortMode::Duration => "duration"@,
            SortMode::Winner => "winner name"@,
        }
    }

    pub fn next(self) -> (r: Self)
        ensures
            r == self.following(),
    {
        match self {
            SortMode::Newest => SortMode::Duration,
            SortMode::Duration => SortMode::Winner,
            SortMode::Winner => SortMode::Newest,
        }
    }

    pub fn label(&self) -> (r: &'static str)
        ensures
            r@ == self.title(),
    {
        match self {
            SortMode::Newest => "newest first",
            SortMode::Duration => "duration",
            SortMode::Winner => "winner name",
        }
    }
}

/// Whether the user is currently typing into the filter box.
#[derive(Debug, Clone, Copy, PartialEq, Eq, Structural)]
pub enum InputMode {
    Normal,
    EditingFilter,
}

/// The frames of the loading spinner, in order.
pub open spec fn spinner_frame_text(i: int) -> Seq<char> {
    if i == 0 { "⠋"@ }
    else if i == 1 { "⠙"@ }
    else if i == 2 { "⠹"@ }
    else if i == 3 { "⠸"@ }
    else if i == 4 { "⠼"@ }
    else if i == 5 { "⠴"@ }
    else if i == 6 { "⠦"@ }
    else if i == 7 { "⠧"@ }
    else if i == 8 { "⠇"@ }
    else { "⠏"@ }
}

/// The number of spinner frames.
pub const SPINNER_FRAME_COUNT: usize = 10;

/// Whether a match between `radiant` and `dire` passes the team filter: with
/// no filter every match does, otherwise one of the two names must contain
/// the filter text, compared in lowercase.
pub open spec fn passes_filter(filter: Option<Seq<char>>, radiant: Seq<char>, dire: Seq<char>) -> bool {
    match filter {
        None => true,
        Some(name) => {
            ||| has_substring(lowercase(radiant), lowercase(name))
            ||| has_substring(lowercase(dire), lowercase(name))
        },
    }
}

/// The filter as a test on pro matches.
pub open spec fn pro_filter_pred(filter: Option<Seq<char>>) -> spec_fn(ProMatch) -> bool {
    |m: ProMatch| passes_filter(filter, m.radiant_text(), m.dire_text())
}

/// The filter as a test on live matches.
pub open spec fn live_filter_pred(filter: Option<Seq<char>>) -> spec_fn(LiveMatch) -> bool {
    |m: LiveMatch| passes_filter(filter, m.radiant_text(), m.dire_text())
}

/// What the tracker's state holds, with strings as their characters.
#[verifier::ext_equal]
pub struct AppView {
    pub pro_matches: Seq<ProMatch>,
    pub live_matches: Seq<LiveMatch>,
    pub team_stats: Seq<TeamStat>,
    pub active_tab: Tab,
    pub sort_mode: SortMode,
    pub filter: Option<Seq<char>>,
    pub filter_buffer: Seq<char>,
    pub input_mode: InputMode,
    pub selected_index: usize,
    pub show_detail: bool,
    pub status: Seq<char>,
    pub is_loading_pro: bool,
    pub is_loading_live: bool,
    pub spinner_frame: usize,
    pub last_key: Option<Key>,
    pub last_key_nanos: u64,
}

/// The characters of an optional string.
pub open spec fn opt_text(s: Option<String>) -> Option<Seq<char>> {
    match s {
        Some(t) => Some(t@),
        None => None,
    }
}

/// The state of the tracker's terminal interface.
pub struct AppState {
    pub pro_matches: Vec<ProMatch>,
    pub live_matches: Vec<LiveMatch>,
    pub team_stats: Vec<TeamStat>,
    pub active_tab: Tab,
    pub sort_mode: SortMode,
    pub filter: Option<String>,
    pub filter_buffer: String,
    pub input_mode: InputMode,
    pub selected_index: usize,
    pub show_detail: bool,
    pub status: String,
    /// Whether a pro/live refresh is in flight, so the views can show a
    /// spinner instead of sitting silently.
    pub is_loading_pro: bool,
    pub is_loading_live: bool,
    pub spinner_frame: usize,
    /// The key processed last and when (a clock reading in nanoseconds),
    /// so that terminal key-repeat (a key held down, or the duplicate events
    /// some terminals send for one keystroke) does not run its action
    /// several times in a row.
    last_key: Option<Key>,
    last_key_nanos: u64,
}

impl View for AppState {
    type V = AppView;

    closed spec fn view(&self) -> AppView {
        AppView {
            pro_matches: self.pro_matches@,
            live_matches: self.live_matches@,
            team_stats: self.team_stats@,
            active_tab: self.active_tab,
            sort_mode: self.sort_mode,
            filter: opt_text(self.filter),
            filter_buffer: self.filter_buffer@,
            input_mode: self.input_mode,
            selected_index: self.selected_index,
            show_detail: self.show_detail,
            status: self.status@,
            is_loading_pro: self.is_loading_pro,
            is_loading_live: self.is_loading_live,
            spinner_frame: self.spinner_frame,
            last_key: self.last_key,
            last_key_nanos: self.last_key_nanos,
        }
    }
}

impl AppView {
    /// The state a new tracker starts in.
    pub open spec fn initial(filter: Option<Seq<char>>) -> AppView {
        AppView {
            pro_matches: Seq::empty(),
            live_matches: Seq::empty(),
            team_stats: Seq::empty(),
            active_tab: Tab::Pro,
            sort_mode: SortMode::Newest,
            filter: filter,
            filter_buffer: Seq::empty(),
            input_mode: InputMode::Normal,
            selected_index: 0,
            show_detail: false,
            status: "Loading..."@,
            is_loading_pro: true,
            is_loading_live: true,
            spinner_frame: 0,
            last_key: None,
            last_key_nanos: 0,
        }
    }

    pub open spec fn is_loading(self) -> bool {
        self.is_loading_pro || self.is_loading_live
    }

    /// The state after switching to the next view: selection back at the
    /// top, detail popup closed.
    pub open spec fn switched_tab(self) -> AppView {
        AppView { active_tab: self.active_tab.following(), selected_index: 0, show_detail: false, ..self }
    }

    /// The state after opening the filter editor on the current filter.
    pub open spec fn filter_edit_started(self) -> AppView {
        AppView {
            input_mode: InputMode::EditingFilter,
            filter_buffer: match self.filter {
                Some(f) => f,
                None => Seq::empty(),
            },
            ..self
        }
    }

    /// The state after confirming the filter editor: the trimmed buffer
    /// becomes the filter (none when it is empty), selection at the top.
    pub open spec fn filter_edit_confirmed(self) -> AppView {
        AppView {
            filter: if trimmed(self.filter_buffer).len() == 0 {
                None
            } else {
                Some(trimmed(self.filter_buffer))
            },
            input_mode: InputMode::Normal,
            selected_index: 0,
            ..self
        }
    }

    /// The state after leaving the filter editor without applying it.
    pub open spec fn filter_edit_cancelled(self) -> AppView {
        AppView { input_mode: InputMode::Normal, filter_buffer: Seq::empty(), ..self }
    }
}

impl AppState {
    pub fn new(initial_filter: Option<String>) -> (s: Self)
        ensures
            s@ == AppView::initial(opt_text(initial_filter)),
    {
        AppState {
            pro_matches: Vec::new(),
            live_matches: Vec::new(),
            team_stats: Vec::new(),
            active_tab: Tab::Pro,
            sort_mode: SortMode::Newest,
            filter: initial_filter,
            filter_buffer: String::new(),
            input_mode: InputMode::Normal,
            selected_index: 0,
            show_detail: false,
            status: "Loading...".to_owned(),
            is_loading_pro: true,
            is_loading_live: true,
            spinner_frame: 0,
            last_key: None,
            last_key_nanos: 0,
        }
    }

    pub fn switch_tab(&mut self)
        ensures
            final(self)@ == old(self)@.switched_tab(),
    {
        self.active_tab = self.active_tab.next();
        self.selected_index = 0;
        self.show_detail = false;
    }

    pub fn start_filter_edit(&mut self)
        ensures
            final(self)@ == old(self)@.filter_edit_started(),
    {
        self.input_mode = InputMode::EditingFilter;
        self.filter_buffer = match &self.filter {
            Some(f) => f.clone(),
            None => String::new(),
        };
    }

    pub fn confirm_filter_edit(&mut self)
        ensures
            final(self)@ == old(self)@.filter_edit_confirmed(),
    {
        let t = trim_text(self.filter_buffer.as_str());
        self.filter = if t.is_empty() {
            None
        } else {
            Some(t.to_owned())
        };
        self.input_mode = InputMode::Normal;
        self.selected_index = 0;
    }

    pub fn cancel_filter_edit(&mut self)
        ensures
            final(self)@ == old(self)@.filter_edit_cancelled(),
    {
        self.input_mode = InputMode::Normal;
        self.filter_buffer = String::new();
    }

    pub fn is_loading(&self) -> (r: bool)
        ensures
            r == self@.is_loading(),
    {
        self.is_loading_pro || self.is_loading_live
    }

    pub fn spinner_char(&self) -> (r: &'static str)
        ensures
            r@ == spinner_frame_text(self@.spinner_frame as int % SPINNER_FRAME_COUNT as int),
    {
        let i = self.spinner_frame % SPINNER_FRAME_COUNT;
        if i == 0 { "⠋" }
        else if i == 1 { "⠙" }
        else if i == 2 { "⠹" }
        else if i == 3 { "⠸" }
        else if i == 4 { "⠼" }
        else if i == 5 { "⠴" }
        else if i == 6 { "⠦" }
        else if i == 7 { "⠧" }
        else if i == 8 { "⠇" }
        else { "⠏" }
    }
}


impl AppView {
    /// Whether a pro match passes the current filter.
    pub open spec fn pro_shown(self, m: ProMatch) -> bool {
        passes_filter(self.filter, m.radiant_text(), m.dire_text())
    }

    /// Whether a live match passes the current filter.
    pub open spec fn live_shown(self, m: LiveMatch) -> bool {
        passes_filter(self.filter, m.radiant_text(), m.dire_text())
    }

    pub open spec fn pro_pred(self) -> spec_fn(ProMatch) -> bool {
        pro_filter_pred(self.filter)
    }

    pub open spec fn live_pred(self) -> spec_fn(LiveMatch) -> bool {
        live_filter_pred(self.filter)
    }

    /// The pro matches that pass the filter, in list order.
    pub open spec fn pro_filtered(self) -> Seq<ProMatch> {
        self.pro_matches.filter(self.pro_pred())
    }

    /// The live matches that pass the filter, in list order: the live view.
    pub open spec fn live_filtered(self) -> Seq<LiveMatch> {
        self.live_matches.filter(self.live_pred())
    }

    /// Pro match `i` is listed before pro match `j`: first by the sort
    /// mode's key (newest start first, longest first, or winner name in
    /// lexicographic order), and matches with equal keys keep their order
    /// in the match list, as a stable sort leaves them.
    pub open spec fn pro_before(self, i: int, j: int) -> bool {
        let a = self.pro_matches[i];
        let b = self.pro_matches[j];
        match self.sort_mode {
            SortMode::Newest => a.start_time > b.start_time || (a.start_time == b.start_time && i < j),
            SortMode::Duration => a.duration > b.duration || (a.duration == b.duration && i < j),
            SortMode::Winner => {
                ||| text_lt(a.winner_text(), b.winner_text())
                ||| (a.winner_text() == b.winner_text() && i < j)
            },
        }
    }

    /// `ord` lists the positions of exactly the pro matches that pass the
    /// filter, each once, in the order `pro_before` gives.
    pub open spec fn is_pro_order(self, ord: Seq<usize>) -> bool {
        &&& ord.len() == self.pro_filtered().len()
        &&& forall|k: int|
            0 <= k < ord.len() ==> #[trigger] ord[k] < self.pro_matches.len() && self.pro_shown(
                self.pro_matches[ord[k] as int],
            )
        &&& forall|i: int|
            0 <= i < self.pro_matches.len() && #[trigger] self.pro_shown(self.pro_matches[i])
                ==> ord.contains(i as usize)
        &&& forall|k: int, l: int|
            0 <= k < l < ord.len() ==> self.pro_before(#[trigger] ord[k] as int, #[trigger] ord[l] as int)
    }

    /// The positions of the pro matches in the pro view, top to bottom.
    pub open spec fn pro_order(self) -> Seq<usize> {
        choose|ord: Seq<usize>| self.is_pro_order(ord)
    }

    /// The pro view: the pro matches that pass the filter, sorted.
    pub open spec fn visible_pros(self) -> Seq<ProMatch> {
        self.pro_order().map_values(|i: usize| self.pro_matches[i as int])
    }

    /// The number of rows of the active view.
    pub open spec fn list_len(self) -> nat {
        match self.active_tab {
            Tab::Pro => self.pro_filtered().len(),
            Tab::Live => self.live_filtered().len(),
            Tab::Stats => self.team_stats.len(),
        }
    }
}

impl AppState {
    /// Whether a match between `radiant` and `dire` passes the filter.
    fn matches_filter(&self, radiant: &str, dire: &str) -> (r: bool)
        ensures
            r == passes_filter(self@.filter, radiant@, dire@),
    {
        match &self.filter {
            None => true,
            Some(name) => {
                let name_lower = to_lowercase(name.as_str());
                let radiant_lower = to_lowercase(radiant);
                if str_contains(radiant_lower.as_str(), name_lower.as_str()) {
                    true
                } else {
                    let dire_lower = to_lowercase(dire);
                    str_contains(dire_lower.as_str(), name_lower.as_str())
                }
            },
        }
    }

    /// The positions of the pro matches that pass the filter, ascending.
    fn shown_pro_positions(&self) -> (idx: Vec<usize>)
        ensures
            idx@.len() == self@.pro_filtered().len(),
            forall|k: int|
                0 <= k < idx@.len() ==> #[trigger] idx@[k] < self@.pro_matches.len()
                    && self@.pro_shown(self@.pro_matches[idx@[k] as int]),
            forall|i: int|
                0 <= i < self@.pro_matches.len() && #[trigger] self@.pro_shown(self@.pro_matches[i])
                    ==> idx@.contains(i as usize),
            forall|k: int, l: int| 0 <= k < l < idx@.len() ==> #[trigger] idx@[k] < #[trigger] idx@[l],
    {
        let ghost v = self@;
        let n = self.pro_matches.len();
        let mut idx: Vec<usize> = Vec::new();
        for i in 0..n
            invariant
                v == self@,
                n == v.pro_matches.len(),
                idx@.len() == v.pro_matches.take(i as int).filter(v.pro_pred()).len(),
                forall|k: int| 0 <= k < idx@.len() ==> #[trigger] idx@[k] < i && v.pro_shown(v.pro_matches[idx@[k] as int]),
                forall|j: int| 0 <= j < i && #[trigger] v.pro_shown(v.pro_matches[j]) ==> idx@.contains(j as usize),
                forall|k: int, l: int| 0 <= k < l < idx@.len() ==> #[trigger] idx@[k] < #[trigger] idx@[l],
        {
            let m = &self.pro_matches[i];
            let shown = self.matches_filter(m.radiant_label(), m.dire_label());
            proof {
                lemma_filter_take_step(v.pro_matches, v.pro_pred(), i as int);
            }
            let ghost before = idx@;
            if shown {
                idx.push(i);
                assert(idx@[before.len() as int] == i);
                assert forall|j: int| 0 <= j < i + 1 && #[trigger] v.pro_shown(v.pro_matches[j]) implies idx@.contains(j as usize) by {
                    if j < i {
                        let k = choose|k: int| 0 <= k < before.len() && before[k] == j as usize;
                        assert(idx@[k] == j as usize);
                    } else {
                        assert(idx@[before.len() as int] == j as usize);
                    }
                }
            } else {
                assert(!v.pro_pred()(v.pro_matches[i as int]));
            }
        }
        assert(v.pro_matches.take(n as int) =~= v.pro_matches);
        idx
    }

    /// Whether pro match `i` is listed before pro match `j`.
    fn pro_before_exec(&self, i: usize, j: usize) -> (r: bool)
        requires
            i < self@.pro_matches.len(),
            j < self@.pro_matches.len(),
        ensures
            r == self@.pro_before(i as int, j as int),
    {
        let a = &self.pro_matches[i];
        let b = &self.pro_matches[j];
        match self.sort_mode {
            SortMode::Newest => a.start_time > b.start_time || (a.start_time == b.start_time && i < j),
            SortMode::Duration => a.duration > b.duration || (a.duration == b.duration && i < j),
            SortMode::Winner => {
                let wa = a.winner_label();
                let wb = b.winner_label();
                str_lt(wa, wb) || (str_eq(wa, wb) && i < j)
            },
        }
    }

    /// The positions in `idx`, rearranged into the order `pro_before` gives.
    fn sort_positions(&self, idx: &Vec<usize>) -> (res: Vec<usize>)
        requires
            forall|k: int| 0 <= k < idx@.len() ==> #[trigger] idx@[k] < self@.pro_matches.len(),
            forall|k: int, l: int| 0 <= k < l < idx@.len() ==> #[trigger] idx@[k] < #[trigger] idx@[l],
        ensures
            res@.len() == idx@.len(),
            forall|x: usize| res@.contains(x) <==> idx@.contains(x),
            forall|k: int| 0 <= k < res@.len() ==> #[trigger] res@[k] < self@.pro_matches.len(),
            forall|k: int, l: int| 0 <= k < l < res@.len() ==> self@.pro_before(#[trigger] res@[k] as int, #[trigger] res@[l] as int),
    {
        let ghost v = self@;
        let mut res: Vec<usize> = Vec::new();
        let ghost mut origin: Seq<int> = Seq::empty();
        let mut t: usize = 0;
        while t < idx.len()
            invariant
                v == self@,
                t <= idx@.len(),
                forall|k: int| 0 <= k < idx@.len() ==> #[trigger] idx@[k] < v.pro_matches.len(),
                forall|k: int, l: int| 0 <= k < l < idx@.len() ==> #[trigger] idx@[k] < #[trigger] idx@[l],
                res@.len() == t,
                origin.len() == t,
                forall|q: int| 0 <= q < t ==> 0 <= #[trigger] origin[q] < t && idx@[origin[q]] == res@[q],
                forall|k: int| 0 <= k < t ==> #[trigger] res@.contains(idx@[k]),
                forall|q: int| 0 <= q < res@.len() ==> #[trigger] res@[q] < v.pro_matches.len(),
                sorted_by_pro(v, res@),
            decreases idx@.len() - t,
        {
            let x = idx[t];
            let mut p: usize = 0;
            while p < res.len() && self.pro_before_exec(res[p], x)
                invariant
                    v == self@,
                    p <= res@.len(),
                    x < v.pro_matches.len(),
                    forall|q: int| 0 <= q < res@.len() ==> #[trigger] res@[q] < v.pro_matches.len(),
                    forall|q: int| 0 <= q < p ==> v.pro_before(#[trigger] res@[q] as int, x as int),
                decreases res@.len() - p,
            {
                p = p + 1;
            }
            let ghost old_res = res@;
            proof {
                assert forall|q: int| 0 <= q < old_res.len() implies #[trigger] old_res[q] != x by {
                    let k = origin[q];
                    assert(idx@[k] < idx@[t as int]);
                }
                lemma_insert_keeps_sorted(v, old_res, p as int, x);
            }
            res.insert(p, x);
            proof {
                old_res.insert_ensures(p as int, x);
                let old_origin = origin;
                origin = old_origin.insert(p as int, t as int);
                old_origin.insert_ensures(p as int, t as int);
                assert forall|q: int| 0 <= q < t + 1 implies 0 <= #[trigger] origin[q] < t + 1 && idx@[origin[q]] == res@[q] by {
                    if q < p {
                        assert(origin[q] == old_origin[q] && res@[q] == old_res[q]);
                    } else if q > p {
                        assert(origin[q] == old_origin[q - 1] && res@[q] == old_res[q - 1]);
                    }
                }
                assert forall|k: int| 0 <= k < t + 1 implies #[trigger] res@.contains(idx@[k]) by {
                    if k < t {
                        assert(old_res.contains(idx@[k]));
                        let q = choose|q: int| 0 <= q < old_res.len() && old_res[q] == idx@[k];
                        if q < p {
                            assert(res@[q] == idx@[k]);
                        } else {
                            assert(res@[q + 1] == idx@[k]);
                        }
                    } else {
                        assert(res@[p as int] == idx@[k]);
                    }
                }
                assert forall|q: int| 0 <= q < res@.len() implies #[trigger] res@[q] < v.pro_matches.len() by {
                    if q < p {
                        assert(res@[q] == old_res[q]);
                    } else if q > p {
                        assert(res@[q] == old_res[q - 1]);
                    }
                }
            }
            t = t + 1;
        }
        proof {
            assert forall|x: usize| res@.contains(x) <==> idx@.contains(x) by {
                if res@.contains(x) {
                    let q = choose|q: int| 0 <= q < res@.len() && res@[q] == x;
                    assert(idx@[origin[q]] == x);
                }
                if idx@.contains(x) {
                    let k = choose|k: int| 0 <= k < idx@.len() && idx@[k] == x;
                    assert(res@.contains(idx@[k]));
                }
            }
        }
        res
    }

    /// The positions of the pro matches in the pro view, top to bottom.
    pub fn visible_pro_order(&self) -> (ord: Vec<usize>)
        ensures
            self@.is_pro_order(ord@),
            ord@ == self@.pro_order(),
    {
        let idx = self.shown_pro_positions();
        let ord = self.sort_positions(&idx);
        proof {
            let v = self@;
            assert forall|k: int| 0 <= k < ord@.len() implies #[trigger] ord@[k] < v.pro_matches.len()
                && v.pro_shown(v.pro_matches[ord@[k] as int]) by {
                assert(ord@.contains(ord@[k]));
                assert(idx@.contains(ord@[k]));
                let j = choose|j: int| 0 <= j < idx@.len() && idx@[j] == ord@[k];
                assert(v.pro_shown(v.pro_matches[idx@[j] as int]));
            }
            assert forall|i: int| 0 <= i < v.pro_matches.len() && #[trigger] v.pro_shown(v.pro_matches[i])
                implies ord@.contains(i as usize) by {
                assert(idx@.contains(i as usize));
            }
            assert(v.is_pro_order(ord@));
            lemma_pro_order_unique(v, ord@, v.pro_order());
        }
        ord
    }

    /// The pro view: the pro matches that pass the filter, in the order of
    /// the sort mode.
    pub fn visible_pro_matches(&self) -> (res: Vec<&ProMatch>)
        ensures
            res@.len() == self@.visible_pros().len(),
            forall|k: int| 0 <= k < res@.len() ==> *res@[k] == self@.visible_pros()[k],
    {
        let ord = self.visible_pro_order();
        let mut res: Vec<&ProMatch> = Vec::new();
        for k in 0..ord.len()
            invariant
                self@.is_pro_order(ord@),
                ord@ == self@.pro_order(),
                res@.len() == k,
                forall|j: int| 0 <= j < k ==> *res@[j] == self@.visible_pros()[j],
        {
            assert(ord@[k as int] < self@.pro_matches.len());
            res.push(&self.pro_matches[ord[k]]);
        }
        res
    }

    /// The live view: the live matches that pass the filter, in list order.
    pub fn visible_live_matches(&self) -> (res: Vec<&LiveMatch>)
        ensures
            res@.len() == self@.live_filtered().len(),
            forall|k: int| 0 <= k < res@.len() ==> *res@[k] == self@.live_filtered()[k],
    {
        let ghost v = self@;
        let n = self.live_matches.len();
        let mut res: Vec<&LiveMatch> = Vec::new();
        for i in 0..n
            invariant
                v == self@,
                n == v.live_matches.len(),
                res@.len() == v.live_matches.take(i as int).filter(v.live_pred()).len(),
                forall|k: int| 0 <= k < res@.len() ==> *res@[k] == v.live_matches.take(i as int).filter(v.live_pred())[k],
        {
            let m = &self.live_matches[i];
            let shown = self.matches_filter(m.radiant_label(), m.dire_label());
            proof {
                lemma_filter_take_step(v.live_matches, v.live_pred(), i as int);
            }
            if shown {
                res.push(m);
            }
        }
        assert(v.live_matches.take(n as int) =~= v.live_matches);
        res
    }

    /// The selected pro match, when the selection is a row of the pro view.
    pub fn selected_pro(&self) -> (r: Option<&ProMatch>)
        ensures
            r is Some <==> self@.selected_index < self@.visible_pros().len(),
            r matches Some(m) ==> *m == self@.visible_pros()[self@.selected_index as int],
    {
        let matches = self.visible_pro_matches();
        if self.selected_index < matches.len() {
            Some(matches[self.selected_index])
        } else {
            None
        }
    }

    /// The selected live match, when the selection is a row of the live view.
    pub fn selected_live(&self) -> (r: Option<&LiveMatch>)
        ensures
            r is Some <==> self@.selected_index < self@.live_filtered().len(),
            r matches Some(m) ==> *m == self@.live_filtered()[self@.selected_index as int],
    {
        let matches = self.visible_live_matches();
        if self.selected_index < matches.len() {
            Some(matches[self.selected_index])
        } else {
            None
        }
    }

    /// The number of rows of the active view.
    pub fn current_list_len(&self) -> (r: usize)
        ensures
            r == self@.list_len(),
    {
        match self.active_tab {
            Tab::Pro => self.visible_pro_order().len(),
            Tab::Live => self.visible_live_matches().len(),
            Tab::Stats => self.team_stats.len(),
        }
    }
}


/// The keys that quit the tracker: Control-`c` always, and `q` outside the
/// filter editor (in the editor `q` is typed into the filter).
pub open spec fn is_quit_key(mode: InputMode, code: Key, ctrl: bool) -> bool {
    (code == Key::Char('c') && ctrl) || (mode == InputMode::Normal && code == Key::Char('q'))
}

/// The status line after a successful pro match refresh.
pub open spec fn refreshed_status(count: nat) -> Seq<char> {
    "Last update OK - "@ + decimal_text(count as int) + " pro matches cached"@
}

impl AppView {
    /// Moving the selection by `delta` stays within `i32`, in which it is
    /// computed: the list length fits, and so does the selected row (taken
    /// as an `i32`) plus `delta` when the list is not empty.
    pub open spec fn can_move(self, delta: i32) -> bool {
        &&& self.list_len() <= i32::MAX
        &&& self.list_len() > 0 ==> i32::MIN <= (self.selected_index as i32) + delta <= i32::MAX
    }

    /// The state after moving the selection by `delta` rows, wrapping around
    /// the active view's list (the selection is 0 when the list is empty).
    pub open spec fn moved_selection(self, delta: i32) -> AppView {
        let len = self.list_len();
        AppView {
            selected_index: if len == 0 {
                0
            } else {
                (((self.selected_index as i32) + delta) % (len as int)) as usize
            },
            ..self
        }
    }

    /// The state after recording a press of `code` at clock reading
    /// `now_nanos`.
    pub open spec fn with_key_press(self, code: Key, now_nanos: u64) -> AppView {
        AppView { last_key: Some(code), last_key_nanos: now_nanos, ..self }
    }

    /// A press of `code` at clock reading `now_nanos` repeats the press
    /// before it too soon to count.
    pub open spec fn is_repeat_at(self, code: Key, now_nanos: u64) -> bool {
        is_repeat_press(self.last_key, code, nanos_between(now_nanos, self.last_key_nanos))
    }

    /// The state after a key typed into the filter editor: Enter applies the
    /// filter, Esc leaves the editor, Backspace deletes, characters are
    /// typed, other keys do nothing.
    pub open spec fn after_editing_key(self, code: Key) -> AppView {
        match code {
            Key::Enter => self.filter_edit_confirmed(),
            Key::Esc => self.filter_edit_cancelled(),
            Key::Backspace => AppView {
                filter_buffer: if self.filter_buffer.len() > 0 {
                    self.filter_buffer.drop_last()
                } else {
                    self.filter_buffer
                },
                ..self
            },
            Key::Char(c) => AppView { filter_buffer: self.filter_buffer.push(c), ..self },
            _ => self,
        }
    }

    /// The state after the action of a key pressed outside the filter
    /// editor: Tab switches the view, Down and Up move the selection, Enter
    /// toggles the detail popup (not on the stats view), Esc closes it, `/`
    /// opens the filter editor, `s` on the pro view changes the sort order.
    pub open spec fn after_action(self, code: Key) -> AppView {
        match code {
            Key::Tab => self.switched_tab(),
            Key::Down => self.moved_selection(1),
            Key::Up => self.moved_selection(-1i32),
            Key::Enter => if self.active_tab != Tab::Stats {
                AppView { show_detail: !self.show_detail, ..self }
            } else {
                self
            },
            Key::Esc => AppView { show_detail: false, ..self },
            Key::Char(c) => if c == '/' {
                self.filter_edit_started()
            } else if c == 's' && self.active_tab == Tab::Pro {
                AppView { sort_mode: self.sort_mode.following(), ..self }
            } else {
                self
            },
            _ => self,
        }
    }

    /// Moving the selection is possible for every key whose action moves it.
    pub open spec fn can_act(self, code: Key) -> bool {
        &&& code == Key::Down ==> self.can_move(1)
        &&& code == Key::Up ==> self.can_move(-1i32)
    }

    /// A press of `code` at clock reading `now_nanos` runs the key's action:
    /// it is made outside the filter editor, is no quit key, and does not
    /// repeat the press before it too soon.
    pub open spec fn runs_action(self, code: Key, ctrl: bool, now_nanos: u64) -> bool {
        &&& self.input_mode == InputMode::Normal
        &&& !is_quit_key(self.input_mode, code, ctrl)
        &&& !self.is_repeat_at(code, now_nanos)
    }
}

/// The refreshed data that the background tasks hand back.
pub enum RefreshMsg {
    ProMatches { matches: Vec<ProMatch>, stats: Vec<TeamStat> },
    ProMatchesFailed(String),
    LiveMatches(Vec<LiveMatch>),
}

impl AppState {
    /// Seeds the pro matches and the team records from the cache: each is
    /// taken when it could be read, and left as it was otherwise.
    pub fn seed_from_cache(
        &mut self,
        cached: Result<Vec<ProMatch>, AppError>,
        stats: Result<Vec<TeamStat>, AppError>,
    )
        ensures
            final(self)@ == (AppView {
                pro_matches: match cached {
                    Ok(v) => v@,
                    Err(_) => old(self)@.pro_matches,
                },
                team_stats: match stats {
                    Ok(v) => v@,
                    Err(_) => old(self)@.team_stats,
                },
                ..old(self)@
            }),
    {
        if let Ok(v) = cached {
            self.pro_matches = v;
        }
        if let Ok(v) = stats {
            self.team_stats = v;
        }
    }

    pub fn move_selection(&mut self, delta: i32)
        requires
            old(self)@.can_move(delta),
        ensures
            final(self)@ == old(self)@.moved_selection(delta),
    {
        let len = self.current_list_len();
        if len == 0 {
            self.selected_index = 0;
            return;
        }
        let current = self.selected_index as i32;
        let sum: i64 = current as i64 + delta as i64;
        let l: i64 = len as i64;
        let r: i64 = if sum >= 0 {
            ((sum as u64) % (l as u64)) as i64
        } else {
            let m: u64 = ((-sum) as u64) % (l as u64);
            proof {
                let a = -(sum as int);
                vstd::arithmetic::div_mod::lemma_fundamental_div_mod(a, l as int);
                let q = a / (l as int);
                assert(sum as int == (-q) * (l as int) - (a % (l as int))) by (nonlinear_arith)
                    requires
                        a == -(sum as int),
                        a == (l as int) * q + (a % (l as int));
                assert(sum as int == (-q - 1) * (l as int) + ((l as int) - (a % (l as int)))) by (nonlinear_arith)
                    requires
                        sum as int == (-q) * (l as int) - (a % (l as int));
                if m == 0 {
                    vstd::arithmetic::div_mod::lemma_fundamental_div_mod_converse(sum as int, l as int, -q, 0);
                } else {
                    vstd::arithmetic::div_mod::lemma_fundamental_div_mod_converse(
                        sum as int,
                        l as int,
                        -q - 1,
                        l - m,
                    );
                }
            }
            if m == 0 {
                0
            } else {
                l - (m as i64)
            }
        };
        assert(r == (sum as int) % (l as int));
        self.selected_index = r as usize;
    }

    /// Whether a press of `code` at clock reading `now_nanos` (in
    /// nanoseconds) repeats the press before it too soon to count; records
    /// the press and its time either way.
    pub fn is_repeat(&mut self, code: Key, now_nanos: u64) -> (r: bool)
        ensures
            r == old(self)@.is_repeat_at(code, now_nanos),
            final(self)@ == old(self)@.with_key_press(code, now_nanos),
    {
        let elapsed: u64 = if now_nanos >= self.last_key_nanos {
            now_nanos - self.last_key_nanos
        } else {
            0
        };
        let r = debounce(self.last_key, code, elapsed);
        self.last_key = Some(code);
        self.last_key_nanos = now_nanos;
        r
    }

    /// Whether a press of `code` at clock reading `now_nanos` would run the
    /// key's action rather than quit, edit the filter or be dropped as a
    /// repeat; nothing is recorded.
    pub fn press_runs_action(&self, code: Key, ctrl: bool, now_nanos: u64) -> (r: bool)
        ensures
            r == self@.runs_action(code, ctrl, now_nanos),
    {
        if self.input_mode != InputMode::Normal {
            return false;
        }
        if (code == Key::Char('c') && ctrl) || code == Key::Char('q') {
            return false;
        }
        let elapsed: u64 = if now_nanos >= self.last_key_nanos {
            now_nanos - self.last_key_nanos
        } else {
            0
        };
        !debounce(self.last_key, code, elapsed)
    }
}

/// Runs the action of a key pressed outside the filter editor that was not
/// dropped as a repeat.
pub fn apply_key(code: Key, state: &mut AppState)
    requires
        old(state)@.can_act(code),
    ensures
        final(state)@ == old(state)@.after_action(code),
{
    match code {
        Key::Tab => state.switch_tab(),
        Key::Down => state.move_selection(1),
        Key::Up => state.move_selection(-1),
        Key::Enter => {
            if state.active_tab != Tab::Stats {
                state.show_detail = !state.show_detail;
            }
        },
        Key::Esc => state.show_detail = false,
        Key::Char(c) => {
            if c == '/' {
                state.start_filter_edit();
            } else if c == 's' {
                if state.active_tab == Tab::Pro {
                    state.sort_mode = state.sort_mode.next();
                }
            }
        },
        _ => {},
    }
}

/// Handles a key press made at clock reading `now_nanos` (in
/// nanoseconds); returns whether the tracker should quit. Control-`c`
/// quits; in the filter editor other keys edit the filter; otherwise `q`
/// quits, a key repeated too soon is dropped, and any other key runs its
/// action.
pub fn handle_key(code: Key, ctrl: bool, now_nanos: u64, state: &mut AppState) -> (quit: bool)
    requires
        old(state)@.runs_action(code, ctrl, now_nanos) ==> old(state)@.can_act(code),
    ensures
        quit == is_quit_key(old(state)@.input_mode, code, ctrl),
        key_handled(old(state)@, final(state)@, code, ctrl, now_nanos),
{
    if code == Key::Char('c') && ctrl {
        return true;
    }
    if state.input_mode == InputMode::EditingFilter {
        match code {
            Key::Enter => state.confirm_filter_edit(),
            Key::Esc => state.cancel_filter_edit(),
            Key::Backspace => pop_char(&mut state.filter_buffer),
            Key::Char(c) => push_char(&mut state.filter_buffer, c),
            _ => {},
        }
        return false;
    }
    if code == Key::Char('q') {
        return true;
    }
    if state.is_repeat(code, now_nanos) {
        return false;
    }
    apply_key(code, state);
    false
}

/// `after` is the state `before` turns into when a key press made at clock
/// reading `now_nanos` is handled: the quit keys change nothing; in the
/// filter editor the key edits the filter; otherwise the press and its time
/// are recorded, and the key's action runs unless the press repeats the
/// one before too soon.
pub open spec fn key_handled(before: AppView, after: AppView, code: Key, ctrl: bool, now_nanos: u64) -> bool {
    if is_quit_key(before.input_mode, code, ctrl) {
        after == before
    } else if before.input_mode == InputMode::EditingFilter {
        after == before.after_editing_key(code)
    } else if before.is_repeat_at(code, now_nanos) {
        after == before.with_key_press(code, now_nanos)
    } else {
        after == before.with_key_press(code, now_nanos).after_action(code)
    }
}

/// `after` is the state `before` turns into when a refresh result comes in:
/// fetched pro matches and team records replace the old ones with a success
/// status, a failed fetch only sets the status, and fetched live matches
/// replace the old ones; each clears its loading flag.
pub open spec fn refreshed(before: AppView, after: AppView, msg: RefreshMsg) -> bool {
    match msg {
        RefreshMsg::ProMatches { matches, stats } => after == (AppView {
            status: refreshed_status(matches@.len()),
            pro_matches: matches@,
            team_stats: stats@,
            is_loading_pro: false,
            ..before
        }),
        RefreshMsg::ProMatchesFailed(reason) => after == (AppView {
            status: reason@,
            is_loading_pro: false,
            ..before
        }),
        RefreshMsg::LiveMatches(matches) => after == (AppView {
            live_matches: matches@,
            is_loading_live: false,
            ..before
        }),
    }
}

/// The message of a pro match refresh whose matches were fetched and
/// cached: the team records come along when they could be read, else the
/// records are left empty.
pub fn pro_refresh_done(matches: Vec<ProMatch>, stats: Result<Vec<TeamStat>, AppError>) -> (msg: RefreshMsg)
    ensures
        msg matches RefreshMsg::ProMatches { matches: m, stats: s } && m@ == matches@ && s@ == (match stats {
            Ok(v) => v@,
            Err(_) => Seq::empty(),
        }),
{
    let stats = match stats {
        Ok(v) => v,
        Err(_) => Vec::new(),
    };
    RefreshMsg::ProMatches { matches, stats }
}

/// Takes in the result of a background refresh.
pub fn apply_refresh(state: &mut AppState, msg: RefreshMsg)
    ensures
        refreshed(old(state)@, final(state)@, msg),
{
    match msg {
        RefreshMsg::ProMatches { matches, stats } => {
            let mut status = "Last update OK - ".to_owned();
            let count = usize_text(matches.len());
            status.append(count.as_str());
            status.append(" pro matches cached");
            state.status = status;
            state.pro_matches = matches;
            state.team_stats = stats;
            state.is_loading_pro = false;
        },
        RefreshMsg::ProMatchesFailed(reason) => {
            state.status = reason;
            state.is_loading_pro = false;
        },
        RefreshMsg::LiveMatches(matches) => {
            state.live_matches = matches;
            state.is_loading_live = false;
        },
    }
}


/// What happened, as the event loop of the terminal front end sees it.
pub enum LoopEvent {
    /// The pro match refresh timer fired.
    ProTick,
    /// The live match refresh timer fired.
    LiveTick,
    /// The spinner animation timer fired.
    SpinnerTick,
    /// A background refresh reported back.
    Refreshed(RefreshMsg),
    /// A key was pressed, with Control held or not, at a clock reading in
    /// nanoseconds.
    KeyPressed { code: Key, ctrl: bool, now_nanos: u64 },
    /// A key event that is not a press (a release or a repeat report).
    OtherKeyEvent,
}

/// What the event loop does after an event.
#[derive(Debug, Clone, Copy, PartialEq, Eq, Structural)]
pub struct LoopAction {
    /// Start a background refresh of the pro matches.
    pub refresh_pro: bool,
    /// Start a background refresh of the live matches.
    pub refresh_live: bool,
    /// Draw the views again.
    pub redraw: bool,
    /// Leave the tracker.
    pub quit: bool,
}

pub open spec fn no_action() -> LoopAction {
    LoopAction { refresh_pro: false, refresh_live: false, redraw: false, quit: false }
}

/// Handles one event of the event loop and says what the loop does next:
/// the refresh timers mark their data as loading and start a refresh, the
/// spinner timer advances the spinner (and redraws) while anything loads,
/// refresh results are taken in, and key presses go to `handle_key`.
pub fn on_event(state: &mut AppState, event: LoopEvent) -> (action: LoopAction)
    requires
        event matches LoopEvent::KeyPressed { code, ctrl, now_nanos } ==> (old(state)@.runs_action(
            code,
            ctrl,
            now_nanos,
        ) ==> old(state)@.can_act(code)),
    ensures
        match event {
            LoopEvent::ProTick => final(state)@ == (AppView { is_loading_pro: true, ..old(state)@ })
                && action == (LoopAction { refresh_pro: true, ..no_action() }),
            LoopEvent::LiveTick => final(state)@ == (AppView { is_loading_live: true, ..old(state)@ })
                && action == (LoopAction { refresh_live: true, ..no_action() }),
            LoopEvent::SpinnerTick => if old(state)@.is_loading() {
                final(state)@ == (AppView {
                    spinner_frame: (if old(state)@.spinner_frame == usize::MAX {
                        0
                    } else {
                        (old(state)@.spinner_frame + 1) as usize
                    }),
                    ..old(state)@
                }) && action == (LoopAction { redraw: true, ..no_action() })
            } else {
                final(state)@ == old(state)@ && action == no_action()
            },
            LoopEvent::Refreshed(_) => action == (LoopAction { redraw: true, ..no_action() }),
            LoopEvent::KeyPressed { code, ctrl, now_nanos } => {
                &&& action.quit == is_quit_key(old(state)@.input_mode, code, ctrl)
                &&& action == (LoopAction { redraw: !action.quit, quit: action.quit, ..no_action() })
            },
            LoopEvent::OtherKeyEvent => final(state)@ == old(state)@ && action == no_action(),
        },
        event matches LoopEvent::Refreshed(msg) ==> refreshed(old(state)@, final(state)@, msg),
        event matches LoopEvent::KeyPressed { code, ctrl, now_nanos } ==> key_handled(
            old(state)@,
            final(state)@,
            code,
            ctrl,
            now_nanos,
        ),
{
    let nothing = LoopAction { refresh_pro: false, refresh_live: false, redraw: false, quit: false };
    match event {
        LoopEvent::ProTick => {
            state.is_loading_pro = true;
            LoopAction { refresh_pro: true, ..nothing }
        },
        LoopEvent::LiveTick => {
            state.is_loading_live = true;
            LoopAction { refresh_live: true, ..nothing }
        },
        LoopEvent::SpinnerTick => {
            if state.is_loading() {
                state.spinner_frame = state.spinner_frame.wrapping_add(1);
                LoopAction { redraw: true, ..nothing }
            } else {
                nothing
            }
        },
        LoopEvent::Refreshed(msg) => {
            apply_refresh(state, msg);
            LoopAction { redraw: true, ..nothing }
        },
        LoopEvent::KeyPressed { code, ctrl, now_nanos } => {
            let quit = handle_key(code, ctrl, now_nanos, state);
            LoopAction { redraw: !quit, quit, ..nothing }
        },
        LoopEvent::OtherKeyEvent => nothing,
    }
}

} // verus!
