//! Transactions as the dashboard shows them: filters, pages and amounts.

use crate::model::csv::without_separators;
use crate::text::{all_digits, chars_of, is_digit, is_white, text_of, trim_start, trimmed};
use vstd::prelude::*;

verus! {

/// An account or category choice for a transaction filter.
#[derive(Debug, Clone)]
pub struct TransactionFilterOption {
    pub id: i64,
    pub name: String,
}

/// Criteria applied to dashboard totals, chart data and table rows (the minimum amount, a
/// float, is added by the caller).
#[derive(Debug, Clone, Default)]
pub struct TransactionFilters {
    /// Month or day prefix matched against the processing date.
    pub date: Option<String>,
    /// Case-insensitive text to find in the description.
    pub description: Option<String>,
    /// Account identifier.
    pub account_id: Option<i64>,
    /// Category identifier; `0` means no category.
    pub category_id: Option<i64>,
}

/// The digits `s` with a `','` before every group of three, counted from the right.
pub open spec fn grouped(s: Seq<char>) -> Seq<char>
    decreases s.len(),
{
    if s.len() <= 3 {
        s
    } else {
        grouped(s.subrange(0, s.len() - 3)) + seq![','] + s.subrange(s.len() - 3, s.len() as int)
    }
}

fn push_range(out: &mut Vec<char>, s: &[char], from: usize, to: usize)
    requires
        from <= to <= s@.len(),
    ensures
        final(out)@ == old(out)@ + s@.subrange(from as int, to as int),
{
    let ghost start = out@;
    let mut i: usize = from;
    while i < to
        invariant
            from <= i <= to <= s@.len(),
            out@ == start + s@.subrange(from as int, i as int),
        decreases to - i,
    {
        out.push(s[i]);
        i = i + 1;
        assert(out@ =~= start + s@.subrange(from as int, i as int));
    }
}

fn push_grouped(out: &mut Vec<char>, s: &[char], end: usize)
    requires
        end <= s@.len(),
    ensures
        final(out)@ == old(out)@ + grouped(s@.subrange(0, end as int)),
    decreases end,
{
    let ghost t = s@.subrange(0, end as int);
    if end <= 3 {
        push_range(out, s, 0, end);
    } else {
        push_grouped(out, s, end - 3);
        assert(t.subrange(0, t.len() - 3) =~= s@.subrange(0, end - 3));
        out.push(',');
        push_range(out, s, end - 3, end);
        assert(t.subrange(t.len() - 3, t.len() as int) =~= s@.subrange(end - 3, end as int));
        assert(out@ =~= old(out)@ + grouped(t));
    }
}

/// The digits `digits` grouped in threes with `','`, the way amounts are shown.
pub fn group_thousands(digits: &str) -> (r: String)
    ensures
        r@ == grouped(digits@),
{
    let s = chars_of(digits);
    let mut out: Vec<char> = Vec::new();
    push_grouped(&mut out, s.as_slice(), s.len());
    assert(s@.subrange(0, s@.len() as int) =~= s@);
    text_of(out.as_slice())
}

proof fn lemma_without_separators_concat(a: Seq<char>, b: Seq<char>)
    ensures
        without_separators(a + b) == without_separators(a) + without_separators(b),
    decreases b.len(),
{
    if b.len() > 0 {
        lemma_without_separators_concat(a, b.drop_last());
        assert((a + b).drop_last() =~= a + b.drop_last());
        assert((a + b).last() == b.last());
    } else {
        assert(a + b =~= a);
        assert(without_separators(a) + without_separators(b) =~= without_separators(a));
    }
}

proof fn lemma_digits_have_no_separators(d: Seq<char>)
    requires
        all_digits(d),
    ensures
        without_separators(d) == d,
    decreases d.len(),
{
    if d.len() > 0 {
        assert(all_digits(d.drop_last()));
        lemma_digits_have_no_separators(d.drop_last());
        assert(is_digit(d.last()));
        assert(d.drop_last().push(d.last()) =~= d);
    }
}

proof fn lemma_grouped_without_separators(d: Seq<char>)
    requires
        all_digits(d),
    ensures
        without_separators(grouped(d)) == d,
    decreases d.len(),
{
    if d.len() <= 3 {
        lemma_digits_have_no_separators(d);
    } else {
        let head = d.subrange(0, d.len() - 3);
        let tail = d.subrange(d.len() - 3, d.len() as int);
        assert(all_digits(head));
        assert(all_digits(tail));
        lemma_grouped_without_separators(head);
        lemma_digits_have_no_separators(tail);
        lemma_without_separators_concat(grouped(head) + seq![','], tail);
        lemma_without_separators_concat(grouped(head), seq![',']);
        let comma = seq![','];
        assert(comma.drop_last() =~= Seq::<char>::empty());
        assert(comma.last() == ',');
        assert(without_separators(Seq::<char>::empty()) == Seq::<char>::empty());
        assert(without_separators(comma) == without_separators(comma.drop_last()));
        assert(head + tail =~= d);
    }
}

proof fn lemma_grouped_characters(d: Seq<char>, i: int)
    requires
        all_digits(d),
        0 <= i < grouped(d).len(),
    ensures
        is_digit(grouped(d)[i]) || grouped(d)[i] == ',',
    decreases d.len(),
{
    if d.len() > 3 {
        let head = d.subrange(0, d.len() - 3);
        assert(all_digits(head));
        let g = grouped(head);
        if i < g.len() {
            lemma_grouped_characters(head, i);
        } else if i > g.len() {
            assert(grouped(d)[i] == d[d.len() - 3 + (i - g.len() - 1)]);
        }
    }
}

proof fn lemma_trimmed_unchanged(s: Seq<char>)
    requires
        s.len() > 0 ==> !is_white(s[0]) && !is_white(s.last()),
    ensures
        trimmed(s) == s,
{
    assert(trim_start(s) == s);
}

/// An amount shown with thousands separators reads back as its digits: the number text of
/// the cell `group_thousands(d)` (trimmed, without separators) is `d` again.
pub proof fn lemma_grouped_amount_reads_back(d: Seq<char>)
    requires
        all_digits(d),
    ensures
        without_separators(trimmed(grouped(d))) == d,
{
    let g = grouped(d);
    if g.len() > 0 {
        lemma_grouped_characters(d, 0);
        lemma_grouped_characters(d, g.len() - 1);
    }
    lemma_trimmed_unchanged(g);
    lemma_grouped_without_separators(d);
}

/// One page of rows, read with one row more than `limit`: the page holds at most `limit` rows
/// and tells whether more follow.
pub fn take_page<T>(rows: Vec<T>, limit: i64) -> (r: (Vec<T>, bool))
    ensures
        r.1 == (rows@.len() > limit),
        r.1 && rows@.len() > 0 ==> r.0@ == rows@.drop_last(),
        r.1 && rows@.len() == 0 ==> r.0@.len() == 0,
        !r.1 ==> r.0@ == rows@,
{
    let mut rows = rows;
    let has_more = rows.len() as i128 > limit as i128;
    if has_more {
        rows.pop();
    }
    (rows, has_more)
}

} // verus!
