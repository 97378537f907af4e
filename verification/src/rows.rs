//! Selecting, ordering and copying table rows.
use vstd::prelude::*;
use crate::model::{Claim, Contract, Decision, Event, Note, Task};
use crate::ranking::{first_n, goes_before, is_ranking, key_before, keys_view, limit_of, pick, rank_rows, ranking, RankKey, SortKey};
use crate::text::lemma_text_less_irreflexive;

verus! {

/// A table row that can be copied with its view preserved.
pub trait Row: View + Sized {
    fn copy_row(&self) -> (out: Self)
        ensures
            out@ == self@,
    ;
}

impl Row for Claim {
    fn copy_row(&self) -> (out: Self) {
        self.copy()
    }
}

impl Row for Task {
    fn copy_row(&self) -> (out: Self) {
        self.copy()
    }
}

impl Row for Note {
    fn copy_row(&self) -> (out: Self) {
        self.copy()
    }
}

impl Row for Decision {
    fn copy_row(&self) -> (out: Self) {
        self.copy()
    }
}

impl Row for Contract {
    fn copy_row(&self) -> (out: Self) {
        self.copy()
    }
}

impl Row for Event {
    fn copy_row(&self) -> (out: Self) {
        self.copy()
    }
}

/// The views of a sequence of rows.
pub open spec fn views<T: View>(s: Seq<T>) -> Seq<T::V> {
    s.map_values(|x: T| x@)
}

/// The positions as integers.
pub open spec fn positions(s: Seq<usize>) -> Seq<int> {
    s.map_values(|x: usize| x as int)
}

/// Sort keys made of a stamp alone.
pub open spec fn stamp_keys(stamps: Seq<int>) -> Seq<RankKey> {
    Seq::new(stamps.len(), |i: int| RankKey { text: Seq::empty(), stamp: stamps[i] })
}

/// Rows keyed by stamps alone go in ascending order of stamp.
pub proof fn lemma_stamp_order(stamps: Seq<int>, i: int, j: int)
    requires
        0 <= i < stamps.len(),
        0 <= j < stamps.len(),
        goes_before(stamp_keys(stamps), i, j),
    ensures
        stamps[i] <= stamps[j],
{
    lemma_text_less_irreflexive(Seq::<char>::empty());
}

/// Copies of the rows of `table` at the positions `idx`, at most `limit` of
/// them.
pub fn pick_rows<T: Row>(table: &Vec<T>, idx: &Vec<usize>, limit: Option<usize>) -> (out: Vec<T>)
    requires
        forall|k: int| 0 <= k < idx.len() ==> (#[trigger] idx@[k]) < table.len(),
    ensures
        views(out@) == first_n(pick(views(table@), positions(idx@)), limit_of(limit)),
{
    let ghost full = pick(views(table@), positions(idx@));
    let n: usize = match limit {
        Some(m) => if m < idx.len() {
            m
        } else {
            idx.len()
        },
        None => idx.len(),
    };
    let mut out: Vec<T> = Vec::new();
    let mut i: usize = 0;
    while i < n
        invariant
            n <= idx.len(),
            i <= n,
            out.len() == i,
            full == pick(views(table@), positions(idx@)),
            forall|k: int| 0 <= k < idx.len() ==> (#[trigger] idx@[k]) < table.len(),
            views(out@) =~= full.take(i as int),
        decreases n - i,
    {
        let j = idx[i];
        let row = table[j].copy_row();
        let ghost rv = row@;
        assert(rv == table@[j as int]@);
        let ghost before = out@;
        out.push(row);
        assert(out@[i as int]@ == rv);
        assert(views(out@) =~= views(before).push(row@));
        assert(full.take(i as int + 1) =~= full.take(i as int).push(full[i as int]));
        i = i + 1;
    }
    assert(full.len() == idx.len());
    assert(first_n(full, limit_of(limit)) =~= full.take(n as int));
    out
}

/// Sort keys made of a text and a stamp.
pub open spec fn text_stamp_keys(names: Seq<Seq<char>>, stamps: Seq<int>) -> Seq<RankKey> {
    Seq::new(stamps.len(), |i: int| RankKey { text: names[i], stamp: stamps[i] })
}

/// Orders the chosen rows by text (ascending), then stamp (ascending), the
/// newest row first among equal keys, and copies at most `limit` of them.
pub fn ranked_rows_by_text<T: Row>(
    table: &Vec<T>,
    names: &Vec<Vec<char>>,
    stamps: &Vec<i128>,
    chosen: &Vec<bool>,
    limit: Option<usize>,
) -> (out: Vec<T>)
    requires
        names.len() == table.len(),
        stamps.len() == table.len(),
        chosen.len() == table.len(),
    ensures
        views(out@) == first_n(
            pick(
                views(table@),
                ranking(
                    text_stamp_keys(
                        names@.map_values(|v: Vec<char>| v@),
                        stamps@.map_values(|s: i128| s as int),
                    ),
                    chosen@,
                ),
            ),
            limit_of(limit),
        ),
        is_ranking(
            text_stamp_keys(names@.map_values(|v: Vec<char>| v@), stamps@.map_values(|s: i128| s as int)),
            chosen@,
            ranking(
                text_stamp_keys(names@.map_values(|v: Vec<char>| v@), stamps@.map_values(|s: i128| s as int)),
                chosen@,
            ),
        ),
{
    let mut keys: Vec<SortKey> = Vec::new();
    let mut i: usize = 0;
    while i < stamps.len()
        invariant
            i <= stamps.len(),
            names.len() == stamps.len(),
            keys.len() == i,
            forall|k: int| 0 <= k < i ==> (#[trigger] keys@[k])@ == (RankKey {
                text: names@[k]@,
                stamp: stamps@[k] as int,
            }),
        decreases stamps.len() - i,
    {
        keys.push(SortKey { text: names[i].clone(), stamp: stamps[i] });
        i = i + 1;
    }
    assert(keys_view(keys@) =~= text_stamp_keys(
        names@.map_values(|v: Vec<char>| v@),
        stamps@.map_values(|s: i128| s as int),
    ));
    let idx = rank_rows(&keys, chosen);
    pick_rows(table, &idx, limit)
}

/// Orders the chosen rows by their stamps (ascending; newest row first among
/// equal stamps) and copies at most `limit` of them.
pub fn ranked_rows<T: Row>(table: &Vec<T>, stamps: &Vec<i128>, chosen: &Vec<bool>, limit: Option<usize>) -> (out: Vec<T>)
    requires
        stamps.len() == table.len(),
        chosen.len() == table.len(),
    ensures
        views(out@) == first_n(
            pick(views(table@), ranking(stamp_keys(stamps@.map_values(|s: i128| s as int)), chosen@)),
            limit_of(limit),
        ),
        is_ranking(
            stamp_keys(stamps@.map_values(|s: i128| s as int)),
            chosen@,
            ranking(stamp_keys(stamps@.map_values(|s: i128| s as int)), chosen@),
        ),
{
    let mut keys: Vec<SortKey> = Vec::new();
    let mut i: usize = 0;
    while i < stamps.len()
        invariant
            i <= stamps.len(),
            keys.len() == i,
            forall|k: int| 0 <= k < i ==> (#[trigger] keys@[k])@ == (RankKey {
                text: Seq::empty(),
                stamp: stamps@[k] as int,
            }),
        decreases stamps.len() - i,
    {
        keys.push(SortKey { text: Vec::new(), stamp: stamps[i] });
        i = i + 1;
    }
    assert(keys_view(keys@) =~= stamp_keys(stamps@.map_values(|s: i128| s as int)));
    let idx = rank_rows(&keys, chosen);
    pick_rows(table, &idx, limit)
}

} // verus!
