//! The order of the pro view: the lemmas that make `pro_before` a strict
//! total order on match positions, and that pin down the sorted view.

use vstd::prelude::*;
use crate::app_state::AppView;
use crate::text::text_lt;

verus! {

/// No match is listed before itself.
pub proof fn lemma_pro_before_irreflexive(v: AppView, i: int)
    requires
        0 <= i < v.pro_matches.len(),
    ensures
        !v.pro_before(i, i),
{
    crate::text::lemma_text_lt_irreflexive(v.pro_matches[i].winner_text());
}

/// Of two different matches, one is listed before the other.
pub proof fn lemma_pro_before_total(v: AppView, i: int, j: int)
    requires
        0 <= i < v.pro_matches.len(),
        0 <= j < v.pro_matches.len(),
        i != j,
    ensures
        v.pro_before(i, j) || v.pro_before(j, i),
{
    let a = v.pro_matches[i].winner_text();
    let b = v.pro_matches[j].winner_text();
    if a != b {
        crate::text::lemma_text_lt_total(a, b);
    }
}

/// The listing order is transitive.
pub proof fn lemma_pro_before_transitive(v: AppView, i: int, j: int, k: int)
    requires
        0 <= i < v.pro_matches.len(),
        0 <= j < v.pro_matches.len(),
        0 <= k < v.pro_matches.len(),
        v.pro_before(i, j),
        v.pro_before(j, k),
    ensures
        v.pro_before(i, k),
{
    let a = v.pro_matches[i].winner_text();
    let b = v.pro_matches[j].winner_text();
    let c = v.pro_matches[k].winner_text();
    if text_lt(a, b) && text_lt(b, c) {
        crate::text::lemma_text_lt_transitive(a, b, c);
    }
}

/// Two sequences of positions that hold the same positions and are both
/// ordered by `pro_before` are the same sequence.
pub proof fn lemma_pro_sorted_unique(v: AppView, a: Seq<usize>, b: Seq<usize>)
    requires
        a.len() == b.len(),
        forall|k: int| 0 <= k < a.len() ==> #[trigger] a[k] < v.pro_matches.len(),
        forall|k: int| 0 <= k < b.len() ==> #[trigger] b[k] < v.pro_matches.len(),
        forall|x: usize| a.contains(x) <==> b.contains(x),
        forall|k: int, l: int| 0 <= k < l < a.len() ==> v.pro_before(#[trigger] a[k] as int, #[trigger] a[l] as int),
        forall|k: int, l: int| 0 <= k < l < b.len() ==> v.pro_before(#[trigger] b[k] as int, #[trigger] b[l] as int),
    ensures
        a == b,
    decreases a.len(),
{
    if a.len() == 0 {
        assert(a =~= b);
    } else {
        assert(a.contains(a[0]));
        assert(b.contains(b[0]));
        let m = choose|m: int| 0 <= m < b.len() && b[m] == a[0];
        let n = choose|n: int| 0 <= n < a.len() && a[n] == b[0];
        if a[0] != b[0] {
            assert(m > 0 && n > 0);
            assert(v.pro_before(b[0] as int, b[m] as int));
            assert(v.pro_before(a[0] as int, a[n] as int));
            lemma_pro_before_transitive(v, a[0] as int, b[0] as int, a[0] as int);
            lemma_pro_before_irreflexive(v, a[0] as int);
        }
        let a1 = a.drop_first();
        let b1 = b.drop_first();
        assert forall|x: usize| a1.contains(x) <==> b1.contains(x) by {
            if a1.contains(x) {
                let k = choose|k: int| 0 <= k < a1.len() && a1[k] == x;
                assert(a[k + 1] == x);
                assert(v.pro_before(a[0] as int, a[k + 1] as int));
                lemma_pro_before_irreflexive(v, a[0] as int);
                assert(b.contains(x));
                let j = choose|j: int| 0 <= j < b.len() && b[j] == x;
                assert(j != 0);
                assert(b1[j - 1] == x);
            }
            if b1.contains(x) {
                let k = choose|k: int| 0 <= k < b1.len() && b1[k] == x;
                assert(b[k + 1] == x);
                assert(v.pro_before(b[0] as int, b[k + 1] as int));
                lemma_pro_before_irreflexive(v, b[0] as int);
                assert(a.contains(x));
                let j = choose|j: int| 0 <= j < a.len() && a[j] == x;
                assert(j != 0);
                assert(a1[j - 1] == x);
            }
        }
        assert forall|k: int, l: int| 0 <= k < l < a1.len() implies v.pro_before(#[trigger] a1[k] as int, #[trigger] a1[l] as int) by {
            assert(a1[k] == a[k + 1] && a1[l] == a[l + 1]);
        }
        assert forall|k: int, l: int| 0 <= k < l < b1.len() implies v.pro_before(#[trigger] b1[k] as int, #[trigger] b1[l] as int) by {
            assert(b1[k] == b[k + 1] && b1[l] == b[l + 1]);
        }
        assert forall|k: int| 0 <= k < a1.len() implies #[trigger] a1[k] < v.pro_matches.len() by {
            assert(a1[k] == a[k + 1]);
        }
        assert forall|k: int| 0 <= k < b1.len() implies #[trigger] b1[k] < v.pro_matches.len() by {
            assert(b1[k] == b[k + 1]);
        }
        lemma_pro_sorted_unique(v, a1, b1);
        assert(a =~= seq![a[0]] + a1);
        assert(b =~= seq![b[0]] + b1);
    }
}

/// The pro view is determined: any two sequences of positions that meet
/// `is_pro_order` are equal.
pub proof fn lemma_pro_order_unique(v: AppView, a: Seq<usize>, b: Seq<usize>)
    requires
        v.is_pro_order(a),
        v.is_pro_order(b),
    ensures
        a == b,
{
    assert forall|x: usize| a.contains(x) <==> b.contains(x) by {
        if a.contains(x) {
            let k = choose|k: int| 0 <= k < a.len() && a[k] == x;
            assert(a[k] < v.pro_matches.len());
            assert(v.pro_shown(v.pro_matches[x as int]));
        }
        if b.contains(x) {
            let k = choose|k: int| 0 <= k < b.len() && b[k] == x;
            assert(b[k] < v.pro_matches.len());
            assert(v.pro_shown(v.pro_matches[x as int]));
        }
    }
    lemma_pro_sorted_unique(v, a, b);
}


/// Every position in `s` is listed before every later one.
pub open spec fn sorted_by_pro(v: AppView, s: Seq<usize>) -> bool {
    forall|a: int, b: int| 0 <= a < b < s.len() ==> v.pro_before(#[trigger] s[a] as int, #[trigger] s[b] as int)
}

/// Putting `x` into a sorted sequence after every position listed before it
/// keeps the sequence sorted.
pub proof fn lemma_insert_keeps_sorted(v: AppView, s: Seq<usize>, p: int, x: usize)
    requires
        0 <= p <= s.len(),
        x < v.pro_matches.len(),
        forall|q: int| 0 <= q < s.len() ==> #[trigger] s[q] < v.pro_matches.len(),
        forall|q: int| 0 <= q < s.len() ==> #[trigger] s[q] != x,
        forall|q: int| 0 <= q < p ==> v.pro_before(#[trigger] s[q] as int, x as int),
        p < s.len() ==> !v.pro_before(s[p] as int, x as int),
        sorted_by_pro(v, s),
    ensures
        sorted_by_pro(v, s.insert(p, x)),
{
    s.insert_ensures(p, x);
    let r = s.insert(p, x);
    assert forall|q: int| p <= q < s.len() implies v.pro_before(x as int, #[trigger] s[q] as int) by {
        lemma_pro_before_total(v, s[p] as int, x as int);
        if q > p {
            lemma_pro_before_transitive(v, x as int, s[p] as int, s[q] as int);
        }
    }
    assert forall|a: int, b: int| 0 <= a < b < r.len() implies v.pro_before(#[trigger] r[a] as int, #[trigger] r[b] as int) by {
        if b < p {
            assert(r[a] == s[a] && r[b] == s[b]);
        } else if b == p {
            assert(r[a] == s[a]);
        } else if a < p {
            assert(r[a] == s[a] && r[b] == s[b - 1]);
            lemma_pro_before_transitive(v, r[a] as int, x as int, r[b] as int);
        } else if a == p {
            assert(r[b] == s[b - 1]);
        } else {
            assert(r[a] == s[a - 1] && r[b] == s[b - 1]);
        }
    }
}

/// Filtering a prefix one element longer adds that element when it passes.
pub proof fn lemma_filter_take_step<A>(s: Seq<A>, pred: spec_fn(A) -> bool, i: int)
    requires
        0 <= i < s.len(),
    ensures
        s.take(i + 1).filter(pred) == (if pred(s[i]) {
            s.take(i).filter(pred).push(s[i])
        } else {
            s.take(i).filter(pred)
        }),
{
    reveal_with_fuel(Seq::<_>::filter, 1);
    assert(s.take(i + 1).drop_last() =~= s.take(i));
}

} // verus!
