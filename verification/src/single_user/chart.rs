//! The day axis of the single-user edition's chart: its days in order and the days that get
//! a label.

use crate::text::{lemma_text_less_irreflexive, lemma_text_less_total, lemma_text_less_transitive, text_less, text_precedes};
use vstd::multiset::Multiset;
use vstd::prelude::*;

verus! {

broadcast use vstd::seq_lib::group_to_multiset_ensures;

/// The entries are in the order of their keys.
pub open spec fn keys_in_order<T>(s: Seq<(String, T)>) -> bool {
    forall|i: int, j: int| 0 <= i < j < s.len() ==> !text_less((#[trigger] s[j]).0@, (#[trigger] s[i]).0@)
}

fn least_key<T>(v: &Vec<(String, T)>) -> (k: usize)
    requires
        v@.len() > 0,
    ensures
        k < v@.len(),
        forall|j: int| 0 <= j < v@.len() ==> !text_less((#[trigger] v@[j]).0@, v@[k as int].0@),
{
    let mut k: usize = 0;
    let mut i: usize = 1;
    proof {
        lemma_text_less_irreflexive(v@[0].0@);
    }
    while i < v.len()
        invariant
            0 <= k < i <= v@.len(),
            forall|j: int| 0 <= j < i ==> !text_less((#[trigger] v@[j]).0@, v@[k as int].0@),
        decreases v@.len() - i,
    {
        if text_precedes(v[i].0.as_str(), v[k].0.as_str()) {
            proof {
                let old_k = k as int;
                assert forall|j: int| 0 <= j < i + 1 implies !text_less((#[trigger] v@[j]).0@, v@[i as int].0@) by {
                    if j == i {
                        lemma_text_less_irreflexive(v@[i as int].0@);
                    } else if text_less(v@[j].0@, v@[i as int].0@) {
                        lemma_text_less_transitive(v@[j].0@, v@[i as int].0@, v@[old_k].0@);
                    }
                }
            }
            k = i;
        } else {
            proof {
                lemma_text_less_total(v@[i as int].0@, v@[k as int].0@);
            }
        }
        i = i + 1;
    }
    k
}

/// The entries sorted by key: the same entries, in key order.
pub fn sort_by_key<T>(v: Vec<(String, T)>) -> (r: Vec<(String, T)>)
    ensures
        r@.to_multiset() == v@.to_multiset(),
        keys_in_order(r@),
{
    let ghost orig = v@;
    let mut rest = v;
    let mut out: Vec<(String, T)> = Vec::new();
    while rest.len() > 0
        invariant
            out@.to_multiset().add(rest@.to_multiset()) == orig.to_multiset(),
            keys_in_order(out@),
            forall|i: int, j: int|
                0 <= i < out@.len() && 0 <= j < rest@.len() ==> !text_less((#[trigger] rest@[j]).0@, (#[trigger] out@[i]).0@),
        decreases rest@.len(),
    {
        let k = least_key(&rest);
        let ghost before_rest = rest@;
        let ghost before_out = out@;
        let item = rest.remove(k);
        assert(item == before_rest[k as int]);
        assert(rest@ == before_rest.remove(k as int));
        out.push(item);
        assert(out@ == before_out.push(item));
        proof {
            assert(before_rest.remove(k as int).to_multiset() =~= before_rest.to_multiset().remove(item));
            assert(before_out.push(item).to_multiset() =~= before_out.to_multiset().insert(item));
            assert(before_rest.to_multiset().count(item) > 0) by {
                assert(before_rest.contains(item)) by {
                    assert(before_rest[k as int] == item);
                }
            }
            assert(out@.to_multiset().add(rest@.to_multiset()) =~= orig.to_multiset());
            assert forall|i: int, j: int| 0 <= i < j < out@.len() implies !text_less((#[trigger] out@[j]).0@, (#[trigger] out@[i]).0@) by {
                if j < before_out.len() {
                    assert(out@[j] == before_out[j] && out@[i] == before_out[i]);
                } else {
                    assert(out@[i] == before_out[i]);
                    assert(out@[j] == item);
                    assert(before_rest[k as int] == item);
                }
            }
            assert forall|i: int, j: int|
                0 <= i < out@.len() && 0 <= j < rest@.len() implies !text_less((#[trigger] rest@[j]).0@, (#[trigger] out@[i]).0@) by {
                let jj = if j < k { j } else { j + 1 };
                assert(rest@[j] == before_rest[jj]);
                if i < before_out.len() {
                    assert(out@[i] == before_out[i]);
                } else {
                    assert(out@[i] == item);
                }
            }
        }
    }
    assert(rest@.to_multiset() =~= Multiset::empty());
    assert(out@.to_multiset().add(Multiset::empty()) =~= out@.to_multiset());
    out
}

/// The days that get a label on the chart's axis, of the days `s` in order: every `n`-th
/// day after the first, among the first `k`.
pub open spec fn labels_upto(s: Seq<Seq<char>>, n: int, k: int) -> Seq<(int, Seq<char>)>
    decreases k,
{
    if k <= 0 {
        Seq::empty()
    } else {
        let init = labels_upto(s, n, k - 1);
        let i = k - 1;
        if i > 0 && i % n == 0 {
            init.push((i, s[i]))
        } else {
            init
        }
    }
}

/// The labelled days of the axis with the days `s` in order: about twelve, evenly spread.
pub open spec fn axis_labels(s: Seq<Seq<char>>) -> Seq<(int, Seq<char>)> {
    labels_upto(s, (s.len() / 12) as int, s.len() as int)
}

/// The texts of the keys of entries.
pub open spec fn keys_of<T>(s: Seq<(String, T)>) -> Seq<Seq<char>> {
    s.map_values(|e: (String, T)| e.0@)
}

/// The positions and texts of labels.
pub open spec fn label_view(r: Seq<(usize, String)>) -> Seq<(int, Seq<char>)> {
    r.map_values(|l: (usize, String)| (l.0 as int, l.1@))
}

/// The labelled days of the chart's axis, of the `days` (a day each) taken in order: every
/// `n`-th day after the first, where `n` is the number of days divided by twelve. From 2 to
/// 11 days there is no such `n` (the axis would divide by zero).
pub fn x_labels(days: Vec<String>) -> (r: Vec<(usize, String)>)
    requires
        !(2 <= days@.len() < 12),
    ensures
        exists|sorted: Seq<(String, ())>|
            sorted.to_multiset() == days@.map_values(|d: String| (d, ())).to_multiset()
                && keys_in_order(sorted) && label_view(r@) == axis_labels(keys_of(sorted)),
{
    let ghost entries_view = days@.map_values(|d: String| (d, ()));
    let mut entries: Vec<(String, ())> = Vec::new();
    let mut d = days;
    let ghost all = d@;
    let mut taken: usize = 0;
    let total = d.len();
    while d.len() > 0
        invariant
            taken + d@.len() == total == all.len(),
            d@ == all.subrange(taken as int, total as int),
            entries@ == all.subrange(0, taken as int).map_values(|x: String| (x, ())),
        decreases d@.len(),
    {
        let day = d.remove(0);
        assert(d@ =~= all.subrange(taken + 1, total as int));
        entries.push((day, ()));
        taken = taken + 1;
        assert(entries@ =~= all.subrange(0, taken as int).map_values(|x: String| (x, ())));
    }
    assert(all.subrange(0, total as int) =~= all);
    assert(entries@ == entries_view);
    let ghost entries_all = entries@;
    let sorted = sort_by_key(entries);
    assert(sorted@.len() == entries_all.len()) by {
        assert(sorted@.to_multiset().len() == sorted@.len());
        assert(entries_all.to_multiset().len() == entries_all.len());
    }
    let ghost keys = keys_of(sorted@);
    let n_days = sorted.len();
    let n = n_days / 12;
    let mut r: Vec<(usize, String)> = Vec::new();
    let mut i: usize = 0;
    while i < n_days
        invariant
            i <= n_days == sorted@.len() == keys.len(),
            n == n_days / 12,
            !(2 <= n_days < 12),
            keys == keys_of(sorted@),
            label_view(r@) == labels_upto(keys, n as int, i as int),
        decreases n_days - i,
    {
        if i > 0 && i % n == 0 {
            r.push((i, sorted[i].0.clone()));
            assert(label_view(r@) =~= labels_upto(keys, n as int, i as int).push((i as int, keys[i as int])));
        }
        i = i + 1;
    }
    r
}

/// The entries in key order, each with its position (`sorted_hashmap` of the templates).
pub fn sorted_entries<T>(entries: Vec<(String, T)>) -> (r: Vec<(usize, String, T)>)
    ensures
        exists|sorted: Seq<(String, T)>|
            sorted.to_multiset() == entries@.to_multiset() && keys_in_order(sorted) && r@.len() == sorted.len()
                && forall|i: int| 0 <= i < r@.len() ==> (#[trigger] r@[i]) == (i as usize, sorted[i].0, sorted[i].1),
{
    let sorted = sort_by_key(entries);
    let ghost s = sorted@;
    let mut rest = sorted;
    let mut r: Vec<(usize, String, T)> = Vec::new();
    let mut i: usize = 0;
    let total = rest.len();
    while rest.len() > 0
        invariant
            i + rest@.len() == total == s.len(),
            rest@ == s.subrange(i as int, total as int),
            r@.len() == i,
            forall|k: int| 0 <= k < i ==> (#[trigger] r@[k]) == (k as usize, s[k].0, s[k].1),
        decreases rest@.len(),
    {
        let (key, value) = rest.remove(0);
        assert(s[i as int] == (key, value));
        assert(rest@ =~= s.subrange(i + 1, total as int));
        r.push((i, key, value));
        i = i + 1;
    }
    r
}

} // verus!
