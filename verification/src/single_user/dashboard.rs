//! The transaction list of the single-user edition: its pages and chart colors.

use crate::single_user::filters::PALETTE;
use crate::text::{chars_of, owned, text_of};
use vstd::prelude::*;

verus! {

/// How many transactions one page lists.
pub const PER_PAGE: i64 = 100;

/// The first transaction of page `page` (pages count from 1; lower pages read as the first).
pub fn page_offset(page: i64) -> (r: i64)
    requires
        page <= i64::MAX / 100,
    ensures
        r == (if page < 1 { 0 } else { (page - 1) * 100 }),
{
    let p = if page < 1 {
        1
    } else {
        page
    };
    (p - 1) * PER_PAGE
}

/// The year the chart shows when the query names no date: the first four characters of the
/// first listed transaction's date, or `"1900"` when nothing is listed.
pub fn default_year(first_processed_at: Option<&str>) -> (r: String)
    ensures
        r@ == match first_processed_at {
            Some(d) => d@.take(if d@.len() < 4 { d@.len() as int } else { 4 }),
            None => "1900"@,
        },
{
    match first_processed_at {
        Some(d) => {
            let cs = chars_of(d);
            let n: usize = if cs.len() < 4 {
                cs.len()
            } else {
                4
            };
            let mut out: Vec<char> = Vec::new();
            let mut i: usize = 0;
            while i < n
                invariant
                    i <= n <= cs@.len(),
                    out@ == cs@.take(i as int),
                decreases n - i,
            {
                out.push(cs[i]);
                i = i + 1;
                assert(out@ =~= cs@.take(i as int));
            }
            text_of(out.as_slice())
        },
        None => owned("1900"),
    }
}

/// How many of `colors` are empty.
pub open spec fn empty_count(colors: Seq<Seq<char>>) -> nat
    decreases colors.len(),
{
    if colors.len() == 0 {
        0
    } else {
        empty_count(colors.drop_last()) + if colors.last().len() == 0 {
            1nat
        } else {
            0nat
        }
    }
}

/// The colors of the chart's day values: a value's own color, or, for the n-th value without
/// one, the palette color at `n` (counted from one) modulo the palette's length.
pub open spec fn chart_colors(colors: Seq<Seq<char>>) -> Seq<Seq<char>> {
    Seq::new(
        colors.len(),
        |i: int| if colors[i].len() == 0 {
            PALETTE@[((empty_count(colors.take(i)) + 1) % 11) as int]@
        } else {
            colors[i]
        },
    )
}

/// The colors of the chart's day values (see `chart_colors`).
pub fn assign_colors(colors: &Vec<String>) -> (r: Vec<String>)
    ensures
        crate::text::texts(r@) == chart_colors(crate::text::texts(colors@)),
{
    let ghost cs = crate::text::texts(colors@);
    let mut r: Vec<String> = Vec::new();
    let mut ci: usize = 0;
    let mut i: usize = 0;
    while i < colors.len()
        invariant
            i <= colors@.len(),
            cs == crate::text::texts(colors@),
            ci < 11,
            ci == empty_count(cs.take(i as int)) % 11,
            r@.len() == i,
            forall|k: int| 0 <= k < i ==> (#[trigger] r@[k])@ == chart_colors(cs)[k],
        decreases colors@.len() - i,
    {
        assert(cs.take(i + 1).drop_last() =~= cs.take(i as int));
        if colors[i].as_str().is_empty() {
            ci = ci + 1;
            if ci >= 11 {
                ci = 0;
            }
            r.push(owned(PALETTE[ci]));
        } else {
            r.push(colors[i].clone());
        }
        i = i + 1;
    }
    assert(crate::text::texts(r@) =~= chart_colors(cs));
    r
}

} // verus!
