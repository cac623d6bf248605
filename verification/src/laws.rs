//! Properties of the tracker that span several operations.

use vstd::prelude::*;
use crate::app_state::{
    is_quit_key, key_handled, passes_filter, refreshed, AppView, InputMode, RefreshMsg, SortMode, Tab,
};
use crate::models::ProMatch;
use crate::screen::{padded_label, pro_detail, DetailLineView};
use crate::text::{has_substring, lemma_text_lt_irreflexive, lowercase, occurs_at, text_lt};
use crate::fetch::{backoff_millis, fetch_step_for, two_pow, FetchStep};
use crate::keys::{is_repeat_press, nanos_between, Key, KEY_DEBOUNCE_NANOS};
use crate::text::{is_white_space, trimmed, trunc_div, trunc_rem};

verus! {

/// Switching views three times comes back to the view one started on, and
/// the three views met on the way are all different.
pub proof fn law_tab_cycle(t: Tab)
    ensures
        t.following().following().following() == t,
        t.following() != t,
        t.following().following() != t,
{
}

/// Changing the sort order three times comes back to the order one started
/// with, passing through all three orders.
pub proof fn law_sort_mode_cycle(m: SortMode)
    ensures
        m.following().following().following() == m,
        m.following() != m,
        m.following().following() != m,
{
}

/// Moving the selection keeps it on a row of the active view, or at 0 when
/// the view is empty; nothing else changes.
pub proof fn law_selection_stays_in_list(v: AppView, delta: i32)
    ensures
        v.list_len() == 0 ==> v.moved_selection(delta).selected_index == 0,
        v.list_len() > 0 ==> v.moved_selection(delta).selected_index < v.list_len(),
        v.moved_selection(delta).list_len() == v.list_len(),
        (AppView { selected_index: v.selected_index, ..v.moved_selection(delta) }) == v,
{
    let w = v.moved_selection(delta);
    assert(w.pro_pred() == v.pro_pred());
    assert(w.live_pred() == v.live_pred());
    assert((AppView { selected_index: v.selected_index, ..w }) =~= v);
}

/// Moving down one row and then up one row comes back to the row one
/// started on.
pub proof fn law_down_then_up(v: AppView)
    requires
        v.selected_index < v.list_len(),
        v.list_len() <= i32::MAX,
    ensures
        v.moved_selection(1).moved_selection(-1i32).selected_index == v.selected_index,
{
    let len = v.list_len() as int;
    let w = v.moved_selection(1);
    assert(w.pro_pred() == v.pro_pred());
    assert(w.live_pred() == v.live_pred());
    assert(w.list_len() == v.list_len());
    let s = v.selected_index as int;
    assert((v.selected_index as i32) as int == s);
    let d = (s + 1) % len;
    assert(w.selected_index as int == d);
    assert((w.selected_index as i32) as int == d);
    if s + 1 < len {
        vstd::arithmetic::div_mod::lemma_fundamental_div_mod_converse(s + 1, len, 0, s + 1);
        vstd::arithmetic::div_mod::lemma_fundamental_div_mod_converse(s, len, 0, s);
    } else {
        vstd::arithmetic::div_mod::lemma_fundamental_div_mod_converse(s + 1, len, 1, 0);
        vstd::arithmetic::div_mod::lemma_fundamental_div_mod_converse(-1, len, -1, len - 1);
    }
}

/// Moving the selection by some number of rows and then back by as many
/// comes back to the row one started on, whenever both moves can be made.
pub proof fn law_move_round_trip(v: AppView, delta: i32)
    requires
        v.selected_index < v.list_len(),
        delta != i32::MIN,
        v.can_move(delta),
        v.moved_selection(delta).can_move((-delta) as i32),
    ensures
        v.moved_selection(delta).moved_selection((-delta) as i32).selected_index == v.selected_index,
{
    let len = v.list_len() as int;
    let w = v.moved_selection(delta);
    assert(w.pro_pred() == v.pro_pred());
    assert(w.live_pred() == v.live_pred());
    assert(w.list_len() == v.list_len());
    let s = v.selected_index as int;
    assert((v.selected_index as i32) as int == s);
    let a = s + delta;
    vstd::arithmetic::div_mod::lemma_fundamental_div_mod(a, len);
    let q = a / len;
    let r1 = a % len;
    assert(w.selected_index as int == r1);
    assert((w.selected_index as i32) as int == r1);
    assert(r1 - delta == (-q) * len + s) by (nonlinear_arith)
        requires
            a == len * q + r1,
            a == s + delta,
    ;
    vstd::arithmetic::div_mod::lemma_fundamental_div_mod_converse(r1 - delta, len, -q, s);
}

/// Trimming leaves no white space at either end.
pub proof fn law_trimmed_has_no_outer_space(s: Seq<char>)
    ensures
        trimmed(s).len() > 0 ==> !is_white_space(trimmed(s)[0]) && !is_white_space(trimmed(s).last()),
    decreases s.len(),
{
    if s.len() > 0 && is_white_space(s[0]) {
        law_trimmed_has_no_outer_space(s.drop_first());
    } else if s.len() > 0 && is_white_space(s.last()) {
        law_trimmed_has_no_outer_space(s.drop_last());
    }
}

/// Trimming twice trims no more than trimming once.
pub proof fn law_trim_idempotent(s: Seq<char>)
    ensures
        trimmed(trimmed(s)) == trimmed(s),
{
    law_trimmed_has_no_outer_space(s);
}

/// A confirmed filter is either absent or a non-empty text without white
/// space at its ends.
pub proof fn law_confirmed_filter_is_trimmed(v: AppView)
    ensures
        v.filter_edit_confirmed().filter matches Some(f) ==> f.len() > 0 && trimmed(f) == f,
{
    law_trim_idempotent(v.filter_buffer);
}

/// Opening the filter editor and confirming it untouched keeps the filter,
/// when the filter is absent or already a trimmed, non-empty text (as every
/// filter set through the editor is).
pub proof fn law_filter_edit_round_trip(v: AppView)
    requires
        v.filter matches Some(f) ==> f.len() > 0 && trimmed(f) == f,
    ensures
        v.filter_edit_started().filter_edit_confirmed().filter == v.filter,
{
    reveal_with_fuel(trimmed, 1);
}

/// Cancelling the filter editor keeps the filter that was in force.
pub proof fn law_cancel_keeps_filter(v: AppView)
    ensures
        v.filter_edit_started().filter_edit_cancelled().filter == v.filter,
        v.filter_edit_started().filter_edit_cancelled().input_mode == crate::app_state::InputMode::Normal,
{
}

proof fn lemma_filter_all<A>(s: Seq<A>, pred: spec_fn(A) -> bool)
    requires
        forall|a: A| #[trigger] pred(a),
    ensures
        s.filter(pred) == s,
    decreases s.len(),
{
    reveal_with_fuel(Seq::<_>::filter, 1);
    if s.len() > 0 {
        lemma_filter_all(s.drop_last(), pred);
        assert(s.drop_last().push(s.last()) =~= s);
    }
}

/// Without a filter every match is shown: both lists pass the filter
/// whole.
pub proof fn law_no_filter_shows_all(v: AppView)
    requires
        v.filter is None,
    ensures
        v.live_filtered() == v.live_matches,
        v.pro_filtered() == v.pro_matches,
{
    lemma_filter_all(v.live_matches, v.live_pred());
    lemma_filter_all(v.pro_matches, v.pro_pred());
}

/// The team filter ignores case: two filter texts with the same lowercase
/// form let the same matches through.
pub proof fn law_filter_ignores_case(a: Seq<char>, b: Seq<char>, radiant: Seq<char>, dire: Seq<char>)
    requires
        lowercase(a) == lowercase(b),
    ensures
        passes_filter(Some(a), radiant, dire) == passes_filter(Some(b), radiant, dire),
{
}

/// A press is never a repeat of a different key, nor the first press.
pub proof fn law_repeat_needs_same_key(last_key: Option<Key>, code: Key, elapsed_nanos: u64)
    ensures
        last_key != Some(code) ==> !is_repeat_press(last_key, code, elapsed_nanos),
        elapsed_nanos >= KEY_DEBOUNCE_NANOS ==> !is_repeat_press(last_key, code, elapsed_nanos),
{
}

/// A press made the debounce interval or more after the press before it is
/// never dropped, nor is the first press of a key after another key.
pub proof fn law_press_after_interval_counts(v: AppView, code: Key, now_nanos: u64)
    ensures
        nanos_between(now_nanos, v.last_key_nanos) >= KEY_DEBOUNCE_NANOS ==> !v.is_repeat_at(code, now_nanos),
        v.last_key != Some(code) ==> !v.is_repeat_at(code, now_nanos),
{
}

/// Control-`c` quits in every mode; `q` quits outside the filter editor
/// only.
pub proof fn law_quit_keys(mode: InputMode)
    ensures
        is_quit_key(mode, Key::Char('c'), true),
        is_quit_key(mode, Key::Char('q'), false) <==> mode == InputMode::Normal,
        !is_quit_key(mode, Key::Char('c'), false),
{
}

/// Each pause before a retry is twice the one before it.
pub proof fn law_backoff_doubles(attempt: nat)
    requires
        attempt >= 1,
    ensures
        backoff_millis(attempt + 1) == 2 * backoff_millis(attempt),
        backoff_millis(1) == 300,
{
    assert(two_pow(attempt) == 2 * two_pow((attempt - 1) as nat));
    assert(two_pow(0) == 1);
}

/// A fetch stops at the first try that succeeds, and never makes more than
/// `max_attempts` tries: it tries again exactly when no try has succeeded
/// and tries are left, and gives up once they are spent.
pub proof fn law_fetch_stops(attempt: nat, max_attempts: nat, last_ok: Option<bool>)
    ensures
        last_ok == Some(true) ==> fetch_step_for(attempt, max_attempts, last_ok) == FetchStep::Done,
        (fetch_step_for(attempt, max_attempts, last_ok) is Attempt) <==> (attempt < max_attempts
            && last_ok != Some(true)),
        attempt >= max_attempts && last_ok != Some(true) ==> fetch_step_for(
            attempt,
            max_attempts,
            last_ok,
        ) == FetchStep::GiveUp,
{
}

/// A clock label splits a count of seconds into minutes and seconds that
/// add back up to it; for a count that is not negative the seconds are
/// below 60.
pub proof fn law_clock_parts(total: int)
    ensures
        trunc_div(total, 60) * 60 + trunc_rem(total, 60) == total,
        total >= 0 ==> 0 <= trunc_rem(total, 60) < 60,
{
}

/// The spinner shows the same frame every ten ticks.
pub proof fn law_spinner_period(frame: nat)
    ensures
        frame % 10 == (frame + 10) % 10,
{
}

/// `a` comes no later than `b` in lexicographic order: `a` is a prefix of
/// `b` (or equal to it), or at the first place where they differ the
/// character of `a` is the smaller.
pub open spec fn lex_no_later(a: Seq<char>, b: Seq<char>) -> bool {
    ||| (a.len() <= b.len() && b.take(a.len() as int) == a)
    ||| exists|p: int|
        0 <= p < a.len() && p < b.len() && #[trigger] a.take(p) == b.take(p) && (a[p] as int) < (
        b[p] as int)
}

proof fn lemma_text_lt_is_lexicographic(a: Seq<char>, b: Seq<char>)
    requires
        text_lt(a, b),
    ensures
        lex_no_later(a, b),
    decreases a.len(),
{
    if a.len() == 0 {
        assert(b.take(0) =~= a);
    } else if a[0] != b[0] {
        assert(a.take(0) =~= b.take(0));
    } else {
        let a1 = a.drop_first();
        let b1 = b.drop_first();
        lemma_text_lt_is_lexicographic(a1, b1);
        if a1.len() <= b1.len() && b1.take(a1.len() as int) == a1 {
            assert(a =~= seq![a[0]] + a1);
            assert(b.take(a.len() as int) =~= seq![b[0]] + b1.take(a1.len() as int));
        } else {
            let p = choose|p: int|
                0 <= p < a1.len() && p < b1.len() && #[trigger] a1.take(p) == b1.take(p) && (
                a1[p] as int) < (b1[p] as int);
            assert(a.take(p + 1) =~= seq![a[0]] + a1.take(p));
            assert(b.take(p + 1) =~= seq![b[0]] + b1.take(p));
            assert(a[p + 1] == a1[p] && b[p + 1] == b1[p]);
        }
    }
}

/// The name of the side that won the match: the Radiant team's when
/// Radiant won, the Dire team's otherwise.
pub open spec fn winning_name(m: ProMatch) -> Seq<char> {
    if m.radiant_win {
        m.radiant_text()
    } else {
        m.dire_text()
    }
}

/// In winner order the pro view lists the matches by the winning team's
/// name, compared as whole texts in lexicographic order: of two matches
/// shown one above the other, the upper one's winner name is a prefix of
/// the lower one's or has the smaller character where they first differ.
/// Matches won by the same name keep the order of the match list.
pub proof fn law_winner_order(v: AppView, ord: Seq<usize>, k: int, l: int)
    requires
        v.sort_mode == SortMode::Winner,
        v.is_pro_order(ord),
        0 <= k < l < ord.len(),
    ensures
        lex_no_later(
            winning_name(v.pro_matches[ord[k] as int]),
            winning_name(v.pro_matches[ord[l] as int]),
        ),
        winning_name(v.pro_matches[ord[k] as int]) == winning_name(v.pro_matches[ord[l] as int])
            ==> ord[k] < ord[l],
{
    let a = v.pro_matches[ord[k] as int].winner_text();
    let b = v.pro_matches[ord[l] as int].winner_text();
    assert(v.pro_before(ord[k] as int, ord[l] as int));
    lemma_text_lt_irreflexive(a);
    if text_lt(a, b) {
        lemma_text_lt_is_lexicographic(a, b);
    } else {
        assert(b.take(a.len() as int) =~= a);
    }
}

/// In newest-first order the pro view lists later starts above earlier
/// ones; in duration order, longer matches above shorter ones; ties keep
/// the order of the match list.
pub proof fn law_time_orders(v: AppView, ord: Seq<usize>, k: int, l: int)
    requires
        v.is_pro_order(ord),
        0 <= k < l < ord.len(),
    ensures
        v.sort_mode == SortMode::Newest ==> v.pro_matches[ord[k] as int].start_time
            >= v.pro_matches[ord[l] as int].start_time,
        v.sort_mode == SortMode::Newest && v.pro_matches[ord[k] as int].start_time
            == v.pro_matches[ord[l] as int].start_time ==> ord[k] < ord[l],
        v.sort_mode == SortMode::Duration ==> v.pro_matches[ord[k] as int].duration
            >= v.pro_matches[ord[l] as int].duration,
        v.sort_mode == SortMode::Duration && v.pro_matches[ord[k] as int].duration
            == v.pro_matches[ord[l] as int].duration ==> ord[k] < ord[l],
{
    assert(v.pro_before(ord[k] as int, ord[l] as int));
}

/// A match passes a team filter exactly when the filter text, in
/// lowercase, occurs somewhere in the lowercase name of one of its two
/// teams, anywhere along the whole name.
pub proof fn law_filter_searches_whole_names(f: Seq<char>, radiant: Seq<char>, dire: Seq<char>, p: int)
    ensures
        0 <= p && p + lowercase(f).len() <= lowercase(radiant).len() && lowercase(radiant).subrange(
            p,
            p + lowercase(f).len(),
        ) == lowercase(f) ==> passes_filter(Some(f), radiant, dire),
        0 <= p && p + lowercase(f).len() <= lowercase(dire).len() && lowercase(dire).subrange(
            p,
            p + lowercase(f).len(),
        ) == lowercase(f) ==> passes_filter(Some(f), radiant, dire),
        passes_filter(Some(f), radiant, dire) ==> (exists|q: int|
            0 <= q && q + lowercase(f).len() <= lowercase(radiant).len()
                && #[trigger] lowercase(radiant).subrange(q, q + lowercase(f).len()) == lowercase(f))
            || (exists|q: int|
            0 <= q && q + lowercase(f).len() <= lowercase(dire).len()
                && #[trigger] lowercase(dire).subrange(q, q + lowercase(f).len()) == lowercase(f)),
{
    if has_substring(lowercase(radiant), lowercase(f)) {
        let q = choose|q: int| occurs_at(lowercase(radiant), lowercase(f), q);
        assert(lowercase(radiant).subrange(q, q + lowercase(f).len()) == lowercase(f));
    }
    if has_substring(lowercase(dire), lowercase(f)) {
        let q = choose|q: int| occurs_at(lowercase(dire), lowercase(f), q);
        assert(lowercase(dire).subrange(q, q + lowercase(f).len()) == lowercase(f));
    }
    assert(occurs_at(lowercase(radiant), lowercase(f), p) ==> has_substring(lowercase(radiant), lowercase(f)));
    assert(occurs_at(lowercase(dire), lowercase(f), p) ==> has_substring(lowercase(dire), lowercase(f)));
}

/// The winner line of a pro match's detail popup names the winning side:
/// the Radiant team when Radiant won, the Dire team otherwise.
pub proof fn law_detail_names_winner(m: ProMatch)
    ensures
        pro_detail(Some(m))[5] == DetailLineView::Winner(
            padded_label("Winner"@),
            "🏆 "@ + winning_name(m),
        ),
{
}

/// A live refresh replaces the live matches with the fetched list,
/// whatever was shown before, so taking in the same list twice leaves the
/// state as taking it in once.
pub proof fn law_live_refresh_replaces(before: AppView, once: AppView, twice: AppView, msg: RefreshMsg)
    requires
        msg is LiveMatches,
        refreshed(before, once, msg),
        refreshed(once, twice, msg),
    ensures
        once.live_matches == msg->LiveMatches_0@,
        !once.is_loading_live,
        once.pro_matches == before.pro_matches,
        twice == once,
{
}

/// Outside the stats view, a press of Enter that is acted on opens the
/// detail popup when it is closed and closes it when it is open; on the
/// stats view it leaves the popup as it is. The view does not change.
pub proof fn law_enter_toggles_detail(before: AppView, after: AppView, ctrl: bool, now_nanos: u64)
    requires
        before.runs_action(Key::Enter, ctrl, now_nanos),
        key_handled(before, after, Key::Enter, ctrl, now_nanos),
    ensures
        before.active_tab != Tab::Stats ==> after.show_detail == !before.show_detail,
        before.active_tab == Tab::Stats ==> after.show_detail == before.show_detail,
        after.active_tab == before.active_tab,
{
}

} // verus!
