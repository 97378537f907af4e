//! Ordering of table rows: the rows that a query selects, sorted by a key
//! made of a text (ascending) and a stamp (ascending).  Rows with equal keys
//! come newest first, that is, by descending position in the table.
use vstd::prelude::*;
use crate::text::{text_less, text_precedes, lemma_text_less_irreflexive, lemma_text_less_total, lemma_text_less_transitive};

verus! {

/// The mathematical sort key of a row.
pub struct RankKey {
    pub text: Seq<char>,
    pub stamp: int,
}

/// The executable sort key of a row.
pub struct SortKey {
    pub text: Vec<char>,
    pub stamp: i128,
}

impl View for SortKey {
    type V = RankKey;

    open spec fn view(&self) -> RankKey {
        RankKey { text: self.text@, stamp: self.stamp as int }
    }
}

/// The views of a sequence of executable keys.
pub open spec fn keys_view(keys: Seq<SortKey>) -> Seq<RankKey> {
    keys.map_values(|k: SortKey| k@)
}

/// `a` sorts strictly before `b`.
pub open spec fn key_before(a: RankKey, b: RankKey) -> bool {
    text_less(a.text, b.text) || (a.text == b.text && a.stamp < b.stamp)
}

/// Row `i` is listed before row `j`: by key, and newest first among equal
/// keys.
pub open spec fn goes_before(keys: Seq<RankKey>, i: int, j: int) -> bool {
    key_before(keys[i], keys[j]) || (keys[i] == keys[j] && i > j)
}

/// `r` lists exactly the chosen rows, each once, in `goes_before` order.
pub open spec fn is_ranking(keys: Seq<RankKey>, chosen: Seq<bool>, r: Seq<int>) -> bool {
    &&& forall|k: int| 0 <= k < r.len() ==> 0 <= #[trigger] r[k] < keys.len() && chosen[r[k]]
    &&& forall|i: int| 0 <= i < keys.len() && #[trigger] chosen[i] ==> r.contains(i)
    &&& forall|a: int, b: int|
        0 <= a < b < r.len() ==> goes_before(keys, #[trigger] r[a], #[trigger] r[b])
}

/// The listing of the chosen rows in `goes_before` order.
pub open spec fn ranking(keys: Seq<RankKey>, chosen: Seq<bool>) -> Seq<int> {
    choose|r: Seq<int>| is_ranking(keys, chosen, r)
}

/// The rows of `table` at the positions `r`.
pub open spec fn pick<T>(table: Seq<T>, r: Seq<int>) -> Seq<T> {
    r.map_values(|i: int| table[i])
}

/// At most the first `limit` elements of `s`; all of them without a limit.
pub open spec fn first_n<T>(s: Seq<T>, limit: Option<int>) -> Seq<T> {
    match limit {
        Some(n) => if n < s.len() {
            s.take(n)
        } else {
            s
        },
        None => s,
    }
}

/// A limit as an integer.
pub open spec fn limit_of(limit: Option<usize>) -> Option<int> {
    match limit {
        Some(n) => Some(n as int),
        None => None,
    }
}

proof fn lemma_key_order(a: RankKey, b: RankKey, c: RankKey)
    ensures
        !key_before(a, a),
        key_before(a, b) && key_before(b, c) ==> key_before(a, c),
        a != b ==> key_before(a, b) || key_before(b, a),
        key_before(a, b) ==> !key_before(b, a),
{
    lemma_text_less_irreflexive(a.text);
    lemma_text_less_irreflexive(b.text);
    if text_less(a.text, b.text) && text_less(b.text, c.text) {
        lemma_text_less_transitive(a.text, b.text, c.text);
    }
    if text_less(a.text, b.text) && text_less(b.text, a.text) {
        lemma_text_less_transitive(a.text, b.text, a.text);
    }
    if a.text != b.text {
        lemma_text_less_total(a.text, b.text);
    }
}

proof fn lemma_goes_before_order(keys: Seq<RankKey>, i: int, j: int, k: int)
    ensures
        !goes_before(keys, i, i),
        goes_before(keys, i, j) && goes_before(keys, j, k) ==> goes_before(keys, i, k),
        i != j ==> goes_before(keys, i, j) || goes_before(keys, j, i),
        goes_before(keys, i, j) ==> !goes_before(keys, j, i),
{
    lemma_key_order(keys[i], keys[j], keys[k]);
    lemma_key_order(keys[j], keys[i], keys[k]);
    lemma_key_order(keys[i], keys[k], keys[j]);
    lemma_key_order(keys[j], keys[k], keys[i]);
    lemma_key_order(keys[k], keys[i], keys[j]);
    lemma_key_order(keys[k], keys[j], keys[i]);
}

/// A ranking is unique.
pub proof fn lemma_ranking_unique(keys: Seq<RankKey>, chosen: Seq<bool>, r1: Seq<int>, r2: Seq<int>)
    requires
        chosen.len() == keys.len(),
        is_ranking(keys, chosen, r1),
        is_ranking(keys, chosen, r2),
    ensures
        r1 == r2,
    decreases r1.len(),
{
    if r1.len() == 0 {
        if r2.len() > 0 {
            assert(chosen[r2[0]]);
            assert(r1.contains(r2[0]));
        }
        assert(r1 =~= r2);
    } else {
        let x = r1[0];
        assert(chosen[x]);
        assert(r2.contains(x));
        let kx = choose|k: int| 0 <= k < r2.len() && r2[k] == x;
        if kx > 0 {
            let y = r2[0];
            assert(chosen[y]);
            assert(r1.contains(y));
            let ky = choose|k: int| 0 <= k < r1.len() && r1[k] == y;
            assert(goes_before(keys, r2[0], r2[kx]));
            lemma_goes_before_order(keys, x, y, x);
            if ky == 0 {
                lemma_goes_before_order(keys, x, x, x);
            } else {
                assert(goes_before(keys, r1[0], r1[ky]));
            }
            assert(false);
        }
        let c2 = chosen.update(x, false);
        let t1 = r1.drop_first();
        let t2 = r2.drop_first();
        assert forall|a: int, b: int| 0 <= a < b < r1.len() implies r1[a] != r1[b] by {
            lemma_goes_before_order(keys, r1[a], r1[b], r1[b]);
        }
        assert forall|a: int, b: int| 0 <= a < b < r2.len() implies r2[a] != r2[b] by {
            lemma_goes_before_order(keys, r2[a], r2[b], r2[b]);
        }
        assert(is_ranking(keys, c2, t1)) by {
            assert forall|k: int| 0 <= k < t1.len() implies 0 <= #[trigger] t1[k] < keys.len()
                && c2[t1[k]] by {
                assert(t1[k] == r1[k + 1]);
                assert(r1[0] != r1[k + 1]);
            }
            assert forall|i: int| 0 <= i < keys.len() && #[trigger] c2[i] implies t1.contains(i) by {
                assert(chosen[i]);
                assert(r1.contains(i));
                let m = choose|m: int| 0 <= m < r1.len() && r1[m] == i;
                assert(m != 0);
                assert(t1[m - 1] == i);
            }
            assert forall|a: int, b: int| 0 <= a < b < t1.len() implies goes_before(
                keys,
                #[trigger] t1[a],
                #[trigger] t1[b],
            ) by {
                assert(t1[a] == r1[a + 1]);
                assert(t1[b] == r1[b + 1]);
            }
        }
        assert(is_ranking(keys, c2, t2)) by {
            assert forall|k: int| 0 <= k < t2.len() implies 0 <= #[trigger] t2[k] < keys.len()
                && c2[t2[k]] by {
                assert(t2[k] == r2[k + 1]);
                assert(r2[0] != r2[k + 1]);
            }
            assert forall|i: int| 0 <= i < keys.len() && #[trigger] c2[i] implies t2.contains(i) by {
                assert(chosen[i]);
                assert(r2.contains(i));
                let m = choose|m: int| 0 <= m < r2.len() && r2[m] == i;
                assert(m != 0);
                assert(t2[m - 1] == i);
            }
            assert forall|a: int, b: int| 0 <= a < b < t2.len() implies goes_before(
                keys,
                #[trigger] t2[a],
                #[trigger] t2[b],
            ) by {
                assert(t2[a] == r2[a + 1]);
                assert(t2[b] == r2[b + 1]);
            }
        }
        lemma_ranking_unique(keys, c2, t1, t2);
        assert(r1 =~= seq![x] + t1);
        assert(r2 =~= seq![x] + t2);
    }
}

/// A ranking is the ranking.
pub proof fn lemma_is_the_ranking(keys: Seq<RankKey>, chosen: Seq<bool>, r: Seq<int>)
    requires
        chosen.len() == keys.len(),
        is_ranking(keys, chosen, r),
    ensures
        ranking(keys, chosen) == r,
{
    let c = ranking(keys, chosen);
    assert(is_ranking(keys, chosen, c));
    lemma_ranking_unique(keys, chosen, c, r);
}

/// A listing shows exactly the chosen rows: the row it shows at place `k`
/// is the chosen row at position `ranking(keys, chosen)[k]` of the table,
/// and each chosen row is shown.
pub proof fn lemma_listing_members<T>(table: Seq<T>, keys: Seq<RankKey>, chosen: Seq<bool>)
    requires
        keys.len() == table.len(),
        chosen.len() == table.len(),
    ensures
        pick(table, ranking(keys, chosen)).len() == ranking(keys, chosen).len(),
        forall|k: int|
            #![trigger pick(table, ranking(keys, chosen))[k]]
            0 <= k < ranking(keys, chosen).len() ==> {
                let j = ranking(keys, chosen)[k];
                &&& 0 <= j < table.len()
                &&& chosen[j]
                &&& pick(table, ranking(keys, chosen))[k] == table[j]
            },
        forall|j: int|
            0 <= j < table.len() && chosen[j] ==> #[trigger] pick(table, ranking(keys, chosen)).contains(
                table[j],
            ),
        forall|a: int, b: int|
            0 <= a < b < ranking(keys, chosen).len() ==> goes_before(
                keys,
                #[trigger] ranking(keys, chosen)[a],
                #[trigger] ranking(keys, chosen)[b],
            ),
{
    lemma_ranking_exists(keys, chosen);
    let r = ranking(keys, chosen);
    assert forall|j: int| 0 <= j < table.len() && chosen[j] implies #[trigger] pick(table, r).contains(table[j]) by {
        assert(r.contains(j));
        let k = choose|k: int| 0 <= k < r.len() && r[k] == j;
        assert(pick(table, r)[k] == table[j]);
    }
}

/// Whether key `a` sorts strictly before key `b`.
pub fn key_precedes(a: &SortKey, b: &SortKey) -> (r: bool)
    ensures
        r == key_before(a@, b@),
{
    let lt = text_precedes(&a.text, &b.text);
    if lt {
        return true;
    }
    let gt = text_precedes(&b.text, &a.text);
    proof {
        if !lt && !gt && a.text@ != b.text@ {
            lemma_text_less_total(a.text@, b.text@);
        }
        lemma_text_less_irreflexive(a.text@);
    }
    !gt && a.stamp < b.stamp
}

/// The chosen rows among the first `i`.
pub open spec fn chosen_below(chosen: Seq<bool>, i: int) -> Seq<bool> {
    Seq::new(chosen.len(), |k: int| k < i && chosen[k])
}

/// Inserting row `i` at the first position whose row does not sort
/// strictly before it extends a ranking of the chosen rows below `i` to
/// one of the chosen rows below `i + 1`.
proof fn lemma_insert_keeps_ranking(kv: Seq<RankKey>, chosen: Seq<bool>, i: int, rv: Seq<int>, p: int)
    requires
        chosen.len() == kv.len(),
        0 <= i < kv.len(),
        chosen[i],
        is_ranking(kv, chosen_below(chosen, i), rv),
        forall|k: int| 0 <= k < rv.len() ==> (#[trigger] rv[k]) < i,
        0 <= p <= rv.len(),
        forall|q: int| 0 <= q < p ==> key_before(kv[#[trigger] rv[q]], kv[i]),
        p < rv.len() ==> !key_before(kv[rv[p]], kv[i]),
    ensures
        is_ranking(kv, chosen_below(chosen, i + 1), rv.insert(p, i)),
        forall|k: int| 0 <= k < rv.insert(p, i).len() ==> (#[trigger] rv.insert(p, i)[k]) < i + 1,
{
    let nv = rv.insert(p, i);
    let cb = chosen_below(chosen, i);
    let cn = chosen_below(chosen, i + 1);
    assert(forall|k: int| 0 <= k < nv.len() ==> #[trigger] nv[k] == (if k < p {
        rv[k]
    } else if k == p {
        i
    } else {
        rv[k - 1]
    }));
    if p < rv.len() {
        assert(!key_before(kv[rv[p]], kv[i]));
        lemma_key_order(kv[rv[p]], kv[i], kv[i]);
        assert(goes_before(kv, i, rv[p]));
    }
    assert forall|k: int| 0 <= k < nv.len() implies 0 <= #[trigger] nv[k] < kv.len() && cn[nv[k]] by {
        if k < p {
            assert(cb[rv[k]]);
        } else if k > p {
            assert(cb[rv[k - 1]]);
        }
    }
    assert forall|j: int| 0 <= j < kv.len() && #[trigger] cn[j] implies nv.contains(j) by {
        if j == i {
            assert(nv[p] == j);
        } else {
            assert(cb[j]);
            assert(rv.contains(j));
            let m = choose|m: int| 0 <= m < rv.len() && rv[m] == j;
            if m < p {
                assert(nv[m] == j);
            } else {
                assert(nv[m + 1] == j);
            }
        }
    }
    assert forall|a: int, b: int| 0 <= a < b < nv.len() implies goes_before(kv, #[trigger] nv[a], #[trigger] nv[b]) by {
        if b < p {
            assert(goes_before(kv, rv[a], rv[b]));
        } else if b == p {
            assert(key_before(kv[rv[a]], kv[i]));
        } else if a < p {
            assert(key_before(kv[rv[a]], kv[i]));
            assert(goes_before(kv, rv[a], i));
            assert(goes_before(kv, i, rv[p]));
            if b - 1 > p {
                assert(goes_before(kv, rv[p], rv[b - 1]));
                lemma_goes_before_order(kv, i, rv[p], rv[b - 1]);
            }
            lemma_goes_before_order(kv, rv[a], i, rv[b - 1]);
        } else if a == p {
            if b - 1 > p {
                assert(goes_before(kv, rv[p], rv[b - 1]));
                lemma_goes_before_order(kv, i, rv[p], rv[b - 1]);
            }
        } else {
            assert(goes_before(kv, rv[a - 1], rv[b - 1]));
        }
    }
}

/// The first position, at `q` or after, whose row does not sort strictly
/// before row `i`.
spec fn insert_point(kv: Seq<RankKey>, rv: Seq<int>, i: int, q: int) -> int
    decreases rv.len() - q,
{
    if q >= rv.len() || q < 0 {
        q
    } else if key_before(kv[rv[q]], kv[i]) {
        insert_point(kv, rv, i, q + 1)
    } else {
        q
    }
}

proof fn lemma_insert_point(kv: Seq<RankKey>, rv: Seq<int>, i: int, q: int)
    requires
        0 <= q <= rv.len(),
        forall|k: int| 0 <= k < q ==> key_before(kv[#[trigger] rv[k]], kv[i]),
    ensures
        q <= insert_point(kv, rv, i, q) <= rv.len(),
        forall|k: int| 0 <= k < insert_point(kv, rv, i, q) ==> key_before(kv[#[trigger] rv[k]], kv[i]),
        insert_point(kv, rv, i, q) < rv.len() ==> !key_before(kv[rv[insert_point(kv, rv, i, q)]], kv[i]),
    decreases rv.len() - q,
{
    if q < rv.len() && key_before(kv[rv[q]], kv[i]) {
        lemma_insert_point(kv, rv, i, q + 1);
    }
}

/// `r` ranks the chosen rows below `i`.
spec fn ranks_below(kv: Seq<RankKey>, chosen: Seq<bool>, i: int, r: Seq<int>) -> bool {
    is_ranking(kv, chosen_below(chosen, i), r) && forall|k: int| 0 <= k < r.len() ==> (#[trigger] r[k]) < i
}

proof fn lemma_ranking_below_exists(kv: Seq<RankKey>, chosen: Seq<bool>, i: int)
    requires
        chosen.len() == kv.len(),
        0 <= i <= kv.len(),
    ensures
        exists|r: Seq<int>| #[trigger] ranks_below(kv, chosen, i, r),
    decreases i,
{
    if i == 0 {
        let r = Seq::<int>::empty();
        assert(ranks_below(kv, chosen, 0, r));
    } else {
        lemma_ranking_below_exists(kv, chosen, i - 1);
        let rv = choose|r: Seq<int>| #[trigger] ranks_below(kv, chosen, i - 1, r);
        if chosen[i - 1] {
            lemma_insert_point(kv, rv, i - 1, 0);
            let p = insert_point(kv, rv, i - 1, 0);
            lemma_insert_keeps_ranking(kv, chosen, i - 1, rv, p);
            let nv = rv.insert(p, i - 1);
            assert(ranks_below(kv, chosen, i, nv));
        } else {
            assert(chosen_below(chosen, i - 1) =~= chosen_below(chosen, i));
            assert(ranks_below(kv, chosen, i, rv));
        }
    }
}

/// Every selection has its ranking: the chosen rows, each once, in order.
pub proof fn lemma_ranking_exists(keys: Seq<RankKey>, chosen: Seq<bool>)
    requires
        chosen.len() == keys.len(),
    ensures
        is_ranking(keys, chosen, ranking(keys, chosen)),
{
    lemma_ranking_below_exists(keys, chosen, keys.len() as int);
    assert(chosen_below(chosen, keys.len() as int) =~= chosen);
}

/// The positions of the chosen rows, in `goes_before` order.
pub fn rank_rows(keys: &Vec<SortKey>, chosen: &Vec<bool>) -> (r: Vec<usize>)
    requires
        keys.len() == chosen.len(),
    ensures
        r@.map_values(|x: usize| x as int) == ranking(keys_view(keys@), chosen@),
        is_ranking(keys_view(keys@), chosen@, ranking(keys_view(keys@), chosen@)),
        forall|k: int| 0 <= k < r.len() ==> (#[trigger] r@[k]) < keys.len(),
{
    let ghost kv = keys_view(keys@);
    let mut r: Vec<usize> = Vec::new();
    let mut i: usize = 0;
    while i < keys.len()
        invariant
            kv == keys_view(keys@),
            keys.len() == chosen.len(),
            i <= keys.len(),
            is_ranking(kv, chosen_below(chosen@, i as int), r@.map_values(|x: usize| x as int)),
            forall|k: int| 0 <= k < r.len() ==> (#[trigger] r@[k]) < i,
        decreases keys.len() - i,
    {
        let ghost rv = r@.map_values(|x: usize| x as int);
        if chosen[i] {
            let mut p: usize = 0;
            while p < r.len() && key_precedes(&keys[r[p]], &keys[i])
                invariant
                    kv == keys_view(keys@),
                    i < keys.len(),
                    p <= r.len(),
                    rv == r@.map_values(|x: usize| x as int),
                    forall|k: int| 0 <= k < r.len() ==> (#[trigger] r@[k]) < i,
                    forall|q: int| 0 <= q < p ==> key_before(kv[#[trigger] rv[q]], kv[i as int]),
                decreases r.len() - p,
            {
                p = p + 1;
            }
            r.insert(p, i);
            proof {
                assert(r@.map_values(|x: usize| x as int) =~= rv.insert(p as int, i as int));
                lemma_insert_keeps_ranking(kv, chosen@, i as int, rv, p as int);
            }
        } else {
            proof {
                assert(chosen_below(chosen@, i as int) =~= chosen_below(chosen@, i as int + 1));
            }
        }
        i = i + 1;
    }
    proof {
        assert(chosen_below(chosen@, keys.len() as int) =~= chosen@);
        lemma_is_the_ranking(kv, chosen@, r@.map_values(|x: usize| x as int));
    }
    r
}

} // verus!
