//! The dashboard: its query string and the series of its daily movement chart.

use crate::model::csv::opt_text;
use crate::model::transactions::TransactionFilters;
use crate::text::{parse_i64_text, parsed_i64, trim, trimmed};
use crate::text::{lemma_text_less_irreflexive, lemma_text_less_total, lemma_text_less_transitive, text_eq, text_less, text_precedes};
use vstd::prelude::*;

verus! {

/// The colors of the chart's series, given in turn to the series in name order.
pub const CHART_COLORS: [&'static str; 12] = [
    "#2f855a",
    "#3182ce",
    "#805ad5",
    "#d69e2e",
    "#d53f8c",
    "#dd6b20",
    "#319795",
    "#00a3c4",
    "#5a67d8",
    "#b83280",
    "#718096",
    "#c05621",
];

/// One line of the chart: its name, its color and its points in order.
pub struct ChartSeries<P> {
    pub name: String,
    pub color: &'static str,
    pub points: Vec<P>,
}

/// The points of `points` that belong to the series `name`, in order.
pub open spec fn points_named<P>(points: Seq<(String, P)>, name: Seq<char>) -> Seq<P>
    decreases points.len(),
{
    if points.len() == 0 {
        Seq::empty()
    } else {
        let init = points_named(points.drop_last(), name);
        if points.last().0@ == name {
            init.push(points.last().1)
        } else {
            init
        }
    }
}

/// Some series of `r` is named `name`.
pub open spec fn has_series<P>(r: Seq<ChartSeries<P>>, name: Seq<char>) -> bool {
    exists|k: int| 0 <= k < r.len() && (#[trigger] r[k]).name@ == name
}

/// `r` is the chart of `points` (each paired with the name of its series): one series per
/// name, in name order, each with its points in their order and the color of its position.
pub open spec fn is_chart_of<P>(r: Seq<ChartSeries<P>>, points: Seq<(String, P)>) -> bool {
    &&& forall|k: int| 0 <= k < r.len() ==> (#[trigger] r[k]).points@ == points_named(points, r[k].name@)
    &&& forall|k: int| 0 <= k < r.len() ==> names_point(points, (#[trigger] r[k]).name@)
    &&& forall|i: int| 0 <= i < points.len() ==> has_series(r, (#[trigger] points[i]).0@)
    &&& forall|a: int, b: int| 0 <= a < b < r.len() ==> text_less((#[trigger] r[a]).name@, (#[trigger] r[b]).name@)
    &&& forall|k: int| 0 <= k < r.len() ==> (#[trigger] r[k]).color == CHART_COLORS@[k % 12]
}

proof fn lemma_points_named_absent<P>(points: Seq<(String, P)>, name: Seq<char>)
    requires
        forall|i: int| 0 <= i < points.len() ==> (#[trigger] points[i]).0@ != name,
    ensures
        points_named(points, name) == Seq::<P>::empty(),
    decreases points.len(),
{
    if points.len() > 0 {
        lemma_points_named_absent(points.drop_last(), name);
    }
}

/// Some point of `points` belongs to the series `name`.
#[verifier::opaque]
pub open spec fn names_point<P>(points: Seq<(String, P)>, name: Seq<char>) -> bool {
    exists|t: int| 0 <= t < points.len() && (#[trigger] points[t]).0@ == name
}

/// Some group of `groups` is named `name`.
#[verifier::opaque]
pub open spec fn has_group<P>(groups: Seq<(String, Vec<P>)>, name: Seq<char>) -> bool {
    exists|k: int| 0 <= k < groups.len() && (#[trigger] groups[k]).0@ == name
}

/// The groups so far: sorted by name, each holding the points of its name among `prefix`,
/// each name occurring in `prefix` and every name of `prefix` having a group.
pub open spec fn groups_of<P>(groups: Seq<(String, Vec<P>)>, prefix: Seq<(String, P)>) -> bool {
    &&& forall|a: int, b: int| 0 <= a < b < groups.len() ==> text_less((#[trigger] groups[a]).0@, (#[trigger] groups[b]).0@)
    &&& forall|k: int| 0 <= k < groups.len() ==> (#[trigger] groups[k]).1@ == points_named(prefix, groups[k].0@)
    &&& forall|k: int| 0 <= k < groups.len() ==> names_point(prefix, (#[trigger] groups[k]).0@)
    &&& forall|t: int| 0 <= t < prefix.len() ==> has_group(groups, (#[trigger] prefix[t]).0@)
}

proof fn lemma_names_point_push<P>(prefix: Seq<(String, P)>, item: (String, P), name: Seq<char>)
    ensures
        names_point(prefix, name) ==> names_point(prefix.push(item), name),
        names_point(prefix.push(item), item.0@),
{
    reveal(names_point);
    let next = prefix.push(item);
    assert(next[prefix.len() as int] == item);
    if names_point(prefix, name) {
        let t = choose|t: int| 0 <= t < prefix.len() && (#[trigger] prefix[t]).0@ == name;
        assert(next[t] == prefix[t]);
    }
}

proof fn lemma_has_group_same_names<P>(old_groups: Seq<(String, Vec<P>)>, groups: Seq<(String, Vec<P>)>, name: Seq<char>)
    requires
        groups.len() == old_groups.len(),
        forall|k: int| 0 <= k < groups.len() ==> (#[trigger] groups[k]).0 == old_groups[k].0,
    ensures
        has_group(old_groups, name) ==> has_group(groups, name),
{
    reveal(has_group);
    if has_group(old_groups, name) {
        let k = choose|k: int| 0 <= k < old_groups.len() && (#[trigger] old_groups[k]).0@ == name;
        assert(groups[k].0 == old_groups[k].0);
    }
}

proof fn lemma_has_group_insert<P>(old_groups: Seq<(String, Vec<P>)>, entry: (String, Vec<P>), j: int, name: Seq<char>)
    requires
        0 <= j <= old_groups.len(),
    ensures
        has_group(old_groups, name) ==> has_group(old_groups.insert(j, entry), name),
        has_group(old_groups.insert(j, entry), entry.0@),
{
    reveal(has_group);
    let groups = old_groups.insert(j, entry);
    assert(groups[j] == entry);
    if has_group(old_groups, name) {
        let o = choose|k: int| 0 <= k < old_groups.len() && (#[trigger] old_groups[k]).0@ == name;
        let k = if o < j { o } else { o + 1 };
        assert(groups[k] == old_groups[o]);
    }
}

proof fn lemma_grow_group<P>(
    old_groups: Seq<(String, Vec<P>)>,
    groups: Seq<(String, Vec<P>)>,
    prefix: Seq<(String, P)>,
    name: String,
    point: P,
    j: int,
)
    requires
        groups_of(old_groups, prefix),
        0 <= j < old_groups.len(),
        old_groups[j].0@ == name@,
        groups.len() == old_groups.len(),
        groups[j].0 == old_groups[j].0,
        groups[j].1@ == old_groups[j].1@.push(point),
        forall|k: int| 0 <= k < groups.len() && k != j ==> groups[k] == old_groups[k],
    ensures
        groups_of(groups, prefix.push((name, point))),
{
    let next = prefix.push((name, point));
    assert(next.drop_last() =~= prefix);
    lemma_text_less_irreflexive(name@);
    assert forall|a: int, b: int| 0 <= a < b < groups.len() implies text_less((#[trigger] groups[a]).0@, (#[trigger] groups[b]).0@) by {
        assert(text_less(old_groups[a].0@, old_groups[b].0@));
    }
    assert forall|k: int| 0 <= k < groups.len() implies (#[trigger] groups[k]).1@ == points_named(next, groups[k].0@) by {
        if k < j {
            assert(text_less(old_groups[k].0@, old_groups[j].0@));
        } else if k > j {
            assert(text_less(old_groups[j].0@, old_groups[k].0@));
        }
    }
    assert forall|k: int| 0 <= k < groups.len() implies names_point(next, (#[trigger] groups[k]).0@) by {
        assert(names_point(prefix, old_groups[k].0@));
        lemma_names_point_push(prefix, (name, point), old_groups[k].0@);
    }
    assert forall|k: int| 0 <= k < groups.len() implies (#[trigger] groups[k]).0 == old_groups[k].0 by {}
    assert forall|t: int| 0 <= t < next.len() implies has_group(groups, (#[trigger] next[t]).0@) by {
        lemma_has_group_same_names(old_groups, groups, next[t].0@);
        if t < prefix.len() {
            assert(next[t] == prefix[t]);
        } else {
            reveal(has_group);
            assert(groups[j].0@ == next[t].0@);
        }
    }
}

/// A name that sorts strictly between its neighbours at `j` is new: no group and no point has it.
proof fn lemma_name_is_new<P>(
    old_groups: Seq<(String, Vec<P>)>,
    prefix: Seq<(String, P)>,
    name: Seq<char>,
    j: int,
)
    requires
        groups_of(old_groups, prefix),
        0 <= j <= old_groups.len(),
        forall|k: int| 0 <= k < j ==> text_less((#[trigger] old_groups[k]).0@, name),
        j < old_groups.len() ==> !text_less(old_groups[j].0@, name) && old_groups[j].0@ != name,
    ensures
        forall|k: int| 0 <= k < old_groups.len() ==> (#[trigger] old_groups[k]).0@ != name,
        j < old_groups.len() ==> text_less(name, old_groups[j].0@),
        points_named(prefix, name) == Seq::<P>::empty(),
{
    lemma_text_less_irreflexive(name);
    if j < old_groups.len() {
        lemma_text_less_total(old_groups[j].0@, name);
    }
    assert forall|k: int| 0 <= k < old_groups.len() implies (#[trigger] old_groups[k]).0@ != name by {
        if k < j {
            assert(text_less(old_groups[k].0@, name));
        } else if k > j {
            assert(text_less(old_groups[j].0@, old_groups[k].0@));
            lemma_text_less_transitive(name, old_groups[j].0@, old_groups[k].0@);
        }
    }
    assert forall|t: int| 0 <= t < prefix.len() implies (#[trigger] prefix[t]).0@ != name by {
        assert(has_group(old_groups, prefix[t].0@));
        reveal(has_group);
        let k = choose|k: int| 0 <= k < old_groups.len() && (#[trigger] old_groups[k]).0@ == prefix[t].0@;
        assert(old_groups[k].0@ != name);
    }
    lemma_points_named_absent(prefix, name);
}

/// Inserting a name at its place keeps the groups sorted.
proof fn lemma_insert_sorted<P>(
    old_groups: Seq<(String, Vec<P>)>,
    groups: Seq<(String, Vec<P>)>,
    entry: (String, Vec<P>),
    j: int,
)
    requires
        forall|a: int, b: int| 0 <= a < b < old_groups.len() ==> text_less((#[trigger] old_groups[a]).0@, (#[trigger] old_groups[b]).0@),
        0 <= j <= old_groups.len(),
        forall|k: int| 0 <= k < j ==> text_less((#[trigger] old_groups[k]).0@, entry.0@),
        j < old_groups.len() ==> text_less(entry.0@, old_groups[j].0@),
        groups == old_groups.insert(j, entry),
    ensures
        forall|a: int, b: int| 0 <= a < b < groups.len() ==> text_less((#[trigger] groups[a]).0@, (#[trigger] groups[b]).0@),
{
    let name = entry.0@;
    assert forall|a: int, b: int| 0 <= a < b < groups.len() implies text_less((#[trigger] groups[a]).0@, (#[trigger] groups[b]).0@) by {
        if a < j && b == j {
            assert(groups[a] == old_groups[a]);
        } else if a == j && b > j {
            assert(groups[b] == old_groups[b - 1]);
            if b > j + 1 {
                assert(text_less(old_groups[j].0@, old_groups[b - 1].0@));
                lemma_text_less_transitive(name, old_groups[j].0@, old_groups[b - 1].0@);
            }
        } else if a < j && b > j {
            assert(groups[a] == old_groups[a]);
            assert(groups[b] == old_groups[b - 1]);
            assert(text_less(old_groups[a].0@, old_groups[b - 1].0@));
        } else if b < j {
            assert(groups[a] == old_groups[a]);
            assert(groups[b] == old_groups[b]);
            assert(text_less(old_groups[a].0@, old_groups[b].0@));
        } else {
            assert(groups[a] == old_groups[a - 1]);
            assert(groups[b] == old_groups[b - 1]);
            assert(text_less(old_groups[a - 1].0@, old_groups[b - 1].0@));
        }
    }
}

proof fn lemma_new_group<P>(
    old_groups: Seq<(String, Vec<P>)>,
    groups: Seq<(String, Vec<P>)>,
    prefix: Seq<(String, P)>,
    name: String,
    point: P,
    pts: Vec<P>,
    j: int,
)
    requires
        groups_of(old_groups, prefix),
        0 <= j <= old_groups.len(),
        forall|k: int| 0 <= k < j ==> text_less((#[trigger] old_groups[k]).0@, name@),
        j < old_groups.len() ==> !text_less(old_groups[j].0@, name@) && old_groups[j].0@ != name@,
        pts@ == seq![point],
        groups == old_groups.insert(j, (name, pts)),
    ensures
        groups_of(groups, prefix.push((name, point))),
{
    let next = prefix.push((name, point));
    assert(next.drop_last() =~= prefix);
    lemma_name_is_new(old_groups, prefix, name@, j);
    lemma_insert_sorted(old_groups, groups, (name, pts), j);
    assert forall|k: int| 0 <= k < groups.len() implies (#[trigger] groups[k]).1@ == points_named(next, groups[k].0@) by {
        if k == j {
            assert(points_named(next, name@) =~= Seq::<P>::empty().push(point));
        } else {
            let o = if k < j { k } else { k - 1 };
            assert(groups[k] == old_groups[o]);
            assert(old_groups[o].0@ != name@);
        }
    }
    assert forall|k: int| 0 <= k < groups.len() implies names_point(next, (#[trigger] groups[k]).0@) by {
        lemma_names_point_push(prefix, (name, point), groups[k].0@);
        if k != j {
            let o = if k < j { k } else { k - 1 };
            assert(groups[k] == old_groups[o]);
            assert(names_point(prefix, old_groups[o].0@));
        }
    }
    assert forall|t: int| 0 <= t < next.len() implies has_group(groups, (#[trigger] next[t]).0@) by {
        lemma_has_group_insert(old_groups, (name, pts), j, next[t].0@);
        if t < prefix.len() {
            assert(next[t] == prefix[t]);
            assert(has_group(old_groups, prefix[t].0@));
        }
    }
}

fn place_point<P>(groups: &mut Vec<(String, Vec<P>)>, name: String, point: P, Ghost(prefix): Ghost<Seq<(String, P)>>)
    requires
        groups_of(old(groups)@, prefix),
    ensures
        groups_of(final(groups)@, prefix.push((name, point))),
{
    let ghost old_groups = groups@;
    let mut j: usize = 0;
    while j < groups.len() && text_precedes(groups[j].0.as_str(), name.as_str())
        invariant
            j <= groups@.len(),
            groups@ == old_groups,
            forall|k: int| 0 <= k < j ==> text_less((#[trigger] groups@[k]).0@, name@),
        decreases groups@.len() - j,
    {
        j = j + 1;
    }
    if j < groups.len() && text_eq(groups[j].0.as_str(), name.as_str()) {
        let mut g = groups.remove(j);
        let ghost old_points = g.1@;
        g.1.push(point);
        groups.insert(j, g);
        proof {
            lemma_grow_group(old_groups, groups@, prefix, name, point, j as int);
        }
    } else {
        let mut pts: Vec<P> = Vec::new();
        pts.push(point);
        let ghost pts_copy = pts;
        let ghost name_copy = name;
        groups.insert(j, (name, pts));
        proof {
            lemma_new_group(old_groups, groups@, prefix, name_copy, point, pts_copy, j as int);
        }
    }
}

fn group_points<P>(points: Vec<(String, P)>) -> (groups: Vec<(String, Vec<P>)>)
    ensures
        groups_of(groups@, points@),
{
    let ghost orig = points@;
    let n = points.len();
    let mut rest = points;
    let mut groups: Vec<(String, Vec<P>)> = Vec::new();
    let mut i: usize = 0;
    while i < n
        invariant
            i <= n == orig.len(),
            rest@ == orig.subrange(i as int, n as int),
            groups_of(groups@, orig.subrange(0, i as int)),
        decreases n - i,
    {
        let ghost prefix = orig.subrange(0, i as int);
        let (name, point) = rest.remove(0);
        assert(orig[i as int] == (name, point));
        assert(rest@ =~= orig.subrange(i + 1, n as int));
        assert(orig.subrange(0, i + 1) =~= prefix.push((name, point)));
        place_point(&mut groups, name, point, Ghost(prefix));
        i = i + 1;
    }
    assert(orig.subrange(0, n as int) =~= orig);
    groups
}

/// Groups the chart points by series name: one series per name, sorted by name, each with
/// its points in their order, colored in turn from `CHART_COLORS`.
pub fn chart_series<P>(points: Vec<(String, P)>) -> (r: Vec<ChartSeries<P>>)
    ensures
        is_chart_of(r@, points@),
{
    let ghost orig = points@;
    let groups = group_points(points);
    let ghost gs = groups@;
    let n = groups.len();
    let mut rest = groups;
    let mut r: Vec<ChartSeries<P>> = Vec::new();
    let mut k: usize = 0;
    while k < n
        invariant
            k <= n == gs.len(),
            groups_of(gs, orig),
            rest@ == gs.subrange(k as int, n as int),
            r@.len() == k,
            forall|i: int| 0 <= i < k ==> (#[trigger] r@[i]).name == gs[i].0 && r@[i].points@ == gs[i].1@
                && r@[i].color == CHART_COLORS@[i % 12],
        decreases n - k,
    {
        let (name, pts) = rest.remove(0);
        assert(gs[k as int] == (name, pts));
        assert(rest@ =~= gs.subrange(k + 1, n as int));
        let color = CHART_COLORS[k % 12];
        r.push(ChartSeries { name, color, points: pts });
        k = k + 1;
    }
    proof {
        assert forall|a: int| 0 <= a < r@.len() implies names_point(orig, (#[trigger] r@[a]).name@) by {
            assert(names_point(orig, gs[a].0@));
        }
        assert forall|i: int| 0 <= i < orig.len() implies has_series(r@, (#[trigger] orig[i]).0@) by {
            assert(has_group(gs, orig[i].0@));
            reveal(has_group);
            let a = choose|a: int| 0 <= a < gs.len() && (#[trigger] gs[a]).0@ == orig[i].0@;
            assert(r@[a].name == gs[a].0);
        }
        assert forall|a: int, b: int| 0 <= a < b < r@.len() implies text_less((#[trigger] r@[a]).name@, (#[trigger] r@[b]).name@) by {
            assert(text_less(gs[a].0@, gs[b].0@));
        }
        assert forall|a: int| 0 <= a < r@.len() implies (#[trigger] r@[a]).points@ == points_named(orig, r@[a].name@) by {
            assert(gs[a].1@ == points_named(orig, gs[a].0@));
        }
        assert(forall|a: int| 0 <= a < r@.len() ==> (#[trigger] r@[a]).color == CHART_COLORS@[a % 12]);
        assert(orig == points@);
    }
    r
}

/// How many transaction rows one dashboard page holds.
pub const TRANSACTION_ROWS: i64 = 60;

/// Query-string state shared by the dashboard summary, chart and transaction list.
#[derive(Debug, Default)]
pub struct DashboardQuery {
    /// A month (`YYYY-MM`) or day (`YYYY-MM-DD`) prefix for the processing date.
    pub date: String,
    /// Case-insensitive text to find in the description.
    pub description: String,
    /// Account selector; an empty or invalid value means all accounts.
    pub account: String,
    /// Category selector; `0` stands for uncategorized transactions.
    pub category: String,
    /// Optional minimum amount, read by the caller.
    pub amount: String,
    /// Number of transactions to skip when loading the next page.
    pub offset: i64,
}

/// `s` trimmed, or nothing where that leaves it empty.
pub open spec fn filled(s: Seq<char>) -> Option<Seq<char>> {
    if trimmed(s).len() == 0 {
        None
    } else {
        Some(trimmed(s))
    }
}

/// `s` read as an identifier, `-1` where it is not one.
pub open spec fn selector_id(s: Seq<char>) -> i64 {
    match parsed_i64(s) {
        Some(v) => v,
        None => -1i64,
    }
}

fn filled_text(s: &String) -> (r: Option<String>)
    ensures
        opt_text(r) == filled(s@),
{
    let t = trim(s.as_str());
    if t.as_str().is_empty() {
        None
    } else {
        Some(t)
    }
}

impl DashboardQuery {
    /// The transaction filters this query selects.
    pub fn filters(&self) -> (r: TransactionFilters)
        ensures
            opt_text(r.date) == filled(self.date@),
            opt_text(r.description) == filled(self.description@),
            r.account_id == parsed_i64(self.account@),
            r.category_id == parsed_i64(self.category@),
    {
        TransactionFilters {
            date: filled_text(&self.date),
            description: filled_text(&self.description),
            account_id: parse_i64_text(self.account.as_str()),
            category_id: parse_i64_text(self.category.as_str()),
        }
    }

    /// The selected account, `-1` where none is.
    pub fn account_id(&self) -> (r: i64)
        ensures
            r == selector_id(self.account@),
    {
        match parse_i64_text(self.account.as_str()) {
            Some(v) => v,
            None => -1,
        }
    }

    /// The selected category, `-1` where none is.
    pub fn category_id(&self) -> (r: i64)
        ensures
            r == selector_id(self.category@),
    {
        match parse_i64_text(self.category.as_str()) {
            Some(v) => v,
            None => -1,
        }
    }

    /// The number of rows to skip: the offset, never below zero.
    pub fn page_offset(&self) -> (r: i64)
        ensures
            r == (if self.offset < 0 { 0 } else { self.offset }),
    {
        if self.offset < 0 {
            0
        } else {
            self.offset
        }
    }

    /// The offset of the page after this one.
    pub fn next_offset(&self) -> (r: i64)
        requires
            self.offset <= i64::MAX - TRANSACTION_ROWS,
        ensures
            r == (if self.offset < 0 { 0 } else { self.offset }) + TRANSACTION_ROWS,
    {
        self.page_offset() + TRANSACTION_ROWS
    }
}

} // verus!
